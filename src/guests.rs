//! Which guests and devices the frontend serves. A guest is set up with its
//! first device and torn down with its last one; the caller holds the
//! hypervisor handles and follows the decisions made here.

use vstd::prelude::*;
use crate::error::Error;

verus! {

/// A guest, by frontend domain id, and the ids of its devices.
pub struct GuestRecord {
    pub fe_domid: u16,
    pub devices: Vec<u32>,
}

/// The guests and devices served, as a map from domain id to device ids.
pub struct GuestRegistry {
    pub guests: Vec<GuestRecord>,
}

/// Index of the guest with domain `domid` in `gs`.
pub open spec fn guest_index(gs: Seq<GuestRecord>, domid: u16) -> Option<int> {
    if exists|i: int| 0 <= i < gs.len() && gs[i].fe_domid == domid {
        Some(choose|i: int| 0 <= i < gs.len() && gs[i].fe_domid == domid)
    } else {
        None
    }
}

impl View for GuestRegistry {
    type V = Map<u16, Set<u32>>;

    /// The served devices: domain id to the set of its device ids.
    open spec fn view(&self) -> Map<u16, Set<u32>> {
        Map::new(
            |d: u16| guest_index(self.guests@, d) is Some,
            |d: u16| self.guests@[guest_index(self.guests@, d).unwrap()].devices@.to_set(),
        )
    }
}

impl GuestRegistry {
    /// Each guest appears once, has at least one device, and no device id
    /// appears twice in a guest.
    pub open spec fn wf(&self) -> bool {
        &&& forall|i: int, j: int|
            0 <= i < j < self.guests@.len() ==> #[trigger] self.guests@[i].fe_domid
                != #[trigger] self.guests@[j].fe_domid
        &&& forall|i: int| 0 <= i < self.guests@.len() ==> (#[trigger] self.guests@[i]).devices@.len() > 0
        &&& forall|i: int, a: int, b: int|
            0 <= i < self.guests@.len() && 0 <= a < b < self.guests@[i].devices@.len()
                ==> #[trigger] self.guests@[i].devices@[a] != #[trigger] self.guests@[i].devices@[b]
    }

    pub fn new() -> (r: GuestRegistry)
        ensures
            r.wf(),
            r.view() == Map::<u16, Set<u32>>::empty(),
    {
        let r = GuestRegistry { guests: Vec::new() };
        assert(r.view() =~= Map::<u16, Set<u32>>::empty());
        r
    }

    /// Index of the guest with domain `domid`.
    pub fn find_guest(&self, domid: u16) -> (r: Option<usize>)
        requires
            self.wf(),
        ensures
            r matches Some(i) ==> guest_index(self.guests@, domid) == Some(i as int) && i < self.guests@.len(),
            r is None ==> guest_index(self.guests@, domid) is None,
    {
        let mut i: usize = 0;
        while i < self.guests.len()
            invariant
                self.wf(),
                i <= self.guests@.len(),
                forall|k: int| 0 <= k < i ==> (#[trigger] self.guests@[k]).fe_domid != domid,
            decreases self.guests.len() - i,
        {
            if self.guests[i].fe_domid == domid {
                proof {
                    let c = choose|k: int| 0 <= k < self.guests@.len() && self.guests@[k].fe_domid == domid;
                    if c != i {
                        if c < i {
                            assert(self.guests@[c].fe_domid != self.guests@[i as int].fe_domid);
                        } else {
                            assert(self.guests@[i as int].fe_domid != self.guests@[c].fe_domid);
                        }
                    }
                }
                return Some(i);
            }
            i = i + 1;
        }
        None
    }

    /// Whether guest `domid` is served.
    pub fn has_guest(&self, domid: u16) -> (r: bool)
        requires
            self.wf(),
        ensures
            r == self.view().contains_key(domid),
    {
        self.find_guest(domid).is_some()
    }

    fn find_device(devs: &Vec<u32>, dev_id: u32) -> (r: Option<usize>)
        ensures
            r matches Some(i) ==> i < devs@.len() && devs@[i as int] == dev_id,
            r is None ==> !devs@.contains(dev_id),
    {
        let mut i: usize = 0;
        while i < devs.len()
            invariant
                i <= devs@.len(),
                forall|k: int| 0 <= k < i ==> devs@[k] != dev_id,
            decreases devs.len() - i,
        {
            if devs[i] == dev_id {
                return Some(i);
            }
            i = i + 1;
        }
        None
    }

    /// Records device `dev_id` of guest `domid`. Returns whether the guest
    /// is new, that is whether it has to be set up first. A device that is
    /// already served is refused.
    pub fn add_device(&mut self, domid: u16, dev_id: u32) -> (r: Result<bool, Error>)
        requires
            old(self).wf(),
        ensures
            final(self).wf(),
            old(self).view().contains_key(domid) && old(self).view()[domid].contains(dev_id) ==> r
                == Err::<bool, Error>(Error::DeviceExists(dev_id)) && final(self).view() == old(
                self,
            ).view(),
            !(old(self).view().contains_key(domid) && old(self).view()[domid].contains(dev_id))
                ==> r == Ok::<bool, Error>(!old(self).view().contains_key(domid))
                && final(self).view() == old(self).view().insert(
                domid,
                if old(self).view().contains_key(domid) {
                    old(self).view()[domid].insert(dev_id)
                } else {
                    set![dev_id]
                },
            ),
    {
        let ghost old_view = self.view();
        match self.find_guest(domid) {
            None => {
                let mut devices: Vec<u32> = Vec::new();
                devices.push(dev_id);
                let ghost gs = self.guests@;
                self.guests.push(GuestRecord { fe_domid: domid, devices });
                proof {
                    let n = gs.len() as int;
                    assert(self.guests@[n].devices@ == seq![dev_id]);
                    assert(seq![dev_id].to_set() =~= set![dev_id]) by {
                        assert(seq![dev_id][0] == dev_id);
                        assert(seq![dev_id].contains(dev_id));
                    }
                    assert forall|d: u16| guest_index(self.guests@, d) is Some == (old_view.contains_key(d) || d == domid) by {
                        if d == domid {
                            assert(self.guests@[n].fe_domid == domid);
                        }
                        if guest_index(gs, d) is Some {
                            let c = choose|k: int| 0 <= k < gs.len() && gs[k].fe_domid == d;
                            assert(self.guests@[c] == gs[c]);
                        }
                        if guest_index(self.guests@, d) is Some && d != domid {
                            let c = choose|k: int| 0 <= k < self.guests@.len() && self.guests@[k].fe_domid == d;
                            assert(gs[c] == self.guests@[c]);
                        }
                    }
                    assert forall|d: u16| #[trigger] guest_index(self.guests@, d) is Some && d != domid implies guest_index(self.guests@, d) == guest_index(gs, d) by {
                        let c = choose|k: int| 0 <= k < self.guests@.len() && self.guests@[k].fe_domid == d;
                        assert(gs[c] == self.guests@[c]);
                        let c2 = choose|k: int| 0 <= k < gs.len() && gs[k].fe_domid == d;
                        assert(self.guests@[c2] == gs[c2]);
                    }
                    assert(guest_index(self.guests@, domid) == Some(n)) by {
                        assert(self.guests@[n].fe_domid == domid);
                        let c = choose|k: int| 0 <= k < self.guests@.len() && self.guests@[k].fe_domid == domid;
                        if c != n {
                            assert(gs[c].fe_domid == domid);
                        }
                    }
                    assert(self.view() =~= old_view.insert(domid, set![dev_id]));
                }
                Ok(true)
            },
            Some(i) => {
                if Self::find_device(&self.guests[i].devices, dev_id).is_some() {
                    return Err(Error::DeviceExists(dev_id));
                }
                let ghost gs = self.guests@;
                let mut rec = self.guests.remove(i);
                rec.devices.push(dev_id);
                self.guests.insert(i, rec);
                proof {
                    assert forall|k: int| 0 <= k < gs.len() && k != i implies self.guests@[k] == gs[k] by {}
                    assert(self.guests@[i as int].devices@ == gs[i as int].devices@.push(dev_id));
                    assert(self.guests@[i as int].devices@.to_set() =~= gs[i as int].devices@.to_set().insert(dev_id)) by {
                        let s = gs[i as int].devices@;
                        assert forall|x: u32| s.push(dev_id).contains(x) <==> (s.contains(x) || x == dev_id) by {
                            if s.contains(x) {
                                let k = choose|k: int| 0 <= k < s.len() && s[k] == x;
                                assert(s.push(dev_id)[k] == x);
                            }
                            if x == dev_id {
                                assert(s.push(dev_id)[s.len() as int] == x);
                            }
                        }
                    }
                    assert forall|d: u16| guest_index(self.guests@, d) == guest_index(gs, d) by {
                        assert forall|k: int| 0 <= k < gs.len() implies #[trigger] self.guests@[k].fe_domid == gs[k].fe_domid by {}
                    }
                    assert(self.view() =~= old_view.insert(domid, old_view[domid].insert(dev_id)));
                }
                Ok(false)
            },
        }
    }

    /// Forgets device `dev_id` of guest `domid`. Returns whether that was
    /// the guest's last device, so that the guest has to be torn down.
    pub fn remove_device(&mut self, domid: u16, dev_id: u32) -> (r: Result<bool, Error>)
        requires
            old(self).wf(),
        ensures
            final(self).wf(),
            !(old(self).view().contains_key(domid) && old(self).view()[domid].contains(dev_id)) ==> r
                == Err::<bool, Error>(Error::DeviceNotFound(dev_id)) && final(self).view() == old(
                self,
            ).view(),
            old(self).view().contains_key(domid) && old(self).view()[domid].contains(dev_id) ==> {
                let rest = old(self).view()[domid].remove(dev_id);
                &&& r == Ok::<bool, Error>(rest.is_empty())
                &&& rest.is_empty() ==> final(self).view() == old(self).view().remove(domid)
                &&& !rest.is_empty() ==> final(self).view() == old(self).view().insert(domid, rest)
            },
    {
        let ghost old_view = self.view();
        let i = match self.find_guest(domid) {
            None => return Err(Error::DeviceNotFound(dev_id)),
            Some(i) => i,
        };
        let k = match Self::find_device(&self.guests[i].devices, dev_id) {
            None => return Err(Error::DeviceNotFound(dev_id)),
            Some(k) => k,
        };
        let ghost gs = self.guests@;
        let ghost ds = gs[i as int].devices@;
        let mut rec = self.guests.remove(i);
        rec.devices.remove(k);
        proof {
            let rest = ds.remove(k as int);
            assert(rest.to_set() =~= ds.to_set().remove(dev_id)) by {
                assert forall|x: u32| rest.contains(x) <==> (ds.contains(x) && x != dev_id) by {
                    if rest.contains(x) {
                        let m = choose|m: int| 0 <= m < rest.len() && rest[m] == x;
                        let m2 = if m < k { m } else { m + 1 };
                        assert(ds[m2] == x);
                        assert(m2 != k);
                    }
                    if ds.contains(x) && x != dev_id {
                        let m = choose|m: int| 0 <= m < ds.len() && ds[m] == x;
                        assert(m != k);
                        let m2 = if m < k { m } else { m - 1 };
                        assert(rest[m2] == x);
                    }
                }
            }
            assert(rest.len() == 0 <==> ds.to_set().remove(dev_id).is_empty()) by {
                if rest.len() > 0 {
                    assert(rest.to_set().contains(rest[0]));
                }
                if rest.len() == 0 {
                    assert(rest.to_set() =~= Set::<u32>::empty());
                }
            }
        }
        if rec.devices.len() == 0 {
            proof {
                assert forall|d: u16| d != domid implies #[trigger] guest_index(self.guests@, d) matches Some(j) ==> self.guests@[j] == gs[if j < i { j } else { j + 1 }] by {}
                assert forall|d: u16| (guest_index(self.guests@, d) is Some) == (guest_index(gs, d) is Some && d != domid) by {
                    if guest_index(gs, d) is Some && d != domid {
                        let c = choose|m: int| 0 <= m < gs.len() && gs[m].fe_domid == d;
                        assert(c != i);
                        let c2 = if c < i { c } else { c - 1 };
                        assert(self.guests@[c2].fe_domid == d);
                    }
                    if guest_index(self.guests@, d) is Some {
                        let c = choose|m: int| 0 <= m < self.guests@.len() && self.guests@[m].fe_domid == d;
                        let c2 = if c < i { c } else { c + 1 };
                        assert(gs[c2].fe_domid == d);
                        assert(c2 != i);
                    }
                }
                assert forall|d: u16| #[trigger] guest_index(self.guests@, d) is Some implies
                    self.guests@[guest_index(self.guests@, d).unwrap()] == gs[guest_index(gs, d).unwrap()] by {
                    let c = choose|m: int| 0 <= m < self.guests@.len() && self.guests@[m].fe_domid == d;
                    let c2 = if c < i { c } else { c + 1 };
                    assert(gs[c2].fe_domid == d);
                    let g = choose|m: int| 0 <= m < gs.len() && gs[m].fe_domid == d;
                    if g != c2 {
                        if g < c2 {
                            assert(gs[g].fe_domid != gs[c2].fe_domid);
                        } else {
                            assert(gs[c2].fe_domid != gs[g].fe_domid);
                        }
                    }
                }
                assert(self.view() =~= old_view.remove(domid));
            }
            Ok(true)
        } else {
            self.guests.insert(i, rec);
            proof {
                let rest = ds.remove(k as int);
                assert(self.guests@[i as int].devices@ == rest);
                assert forall|a: int, b: int| 0 <= a < b < rest.len() implies rest[a] != rest[b] by {
                    let a2 = if a < k { a } else { a + 1 };
                    let b2 = if b < k { b } else { b + 1 };
                    assert(rest[a] == ds[a2]);
                    assert(rest[b] == ds[b2]);
                }
                assert forall|m: int| 0 <= m < gs.len() && m != i implies self.guests@[m] == gs[m] by {}
                assert forall|d: u16| guest_index(self.guests@, d) == guest_index(gs, d) by {
                    assert forall|m: int| 0 <= m < gs.len() implies #[trigger] self.guests@[m].fe_domid == gs[m].fe_domid by {}
                }
                assert(self.view() =~= old_view.insert(domid, old_view[domid].remove(dev_id)));
            }
            Ok(false)
        }
    }

    /// Whether no guest is served.
    pub fn is_empty(&self) -> (r: bool)
        ensures
            r == (self.guests@.len() == 0),
    {
        self.guests.len() == 0
    }
}

} // verus!
