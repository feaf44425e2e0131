//! The devices of one guest and the routing of I/O requests to them.

use vstd::prelude::*;
use crate::error::Error;
use crate::ioreq::{begun, finished, Ioreq};
use crate::mmio::{handle_ioreq, result_view, Action, MmioAction, MmioState, XenMmio};
use crate::regs::{
    IOREQ_TYPE_COPY, STATE_IOREQ_INPROCESS, STATE_IOREQ_READY, STATE_IORESP_READY, VIRTIO_MMIO_IO_SIZE,
};

verus! {

/// One virtio device of a guest: its identifier, the base of its window, its
/// interrupt line and its transport.
pub struct XenDevice {
    pub dev_id: u32,
    pub addr: u64,
    pub irq: u8,
    pub mmio: XenMmio,
}

/// Whether `a` falls in the window that starts at `base`.
pub open spec fn window_contains(base: u64, a: u64) -> bool {
    base <= a < base + VIRTIO_MMIO_IO_SIZE
}

/// Whether the windows at `a` and `b` share an address.
pub open spec fn windows_overlap(a: u64, b: u64) -> bool {
    a < b + VIRTIO_MMIO_IO_SIZE && b < a + VIRTIO_MMIO_IO_SIZE
}

impl XenDevice {
    pub open spec fn wf(&self) -> bool {
        &&& self.mmio.wf()
        &&& self.mmio.addr == self.addr
    }

    /// A device whose registers are `mmio`; its window starts at the
    /// transport's base.
    pub fn new(dev_id: u32, irq: u8, mmio: XenMmio) -> (r: XenDevice)
        requires
            mmio.wf(),
        ensures
            r.wf(),
            r.dev_id == dev_id,
            r.irq == irq,
            r.mmio == mmio,
            r.addr == mmio.addr,
    {
        let addr = mmio.addr;
        XenDevice { dev_id, addr, irq, mmio }
    }

    /// Whether the guest physical address `a` falls in the device's window.
    pub fn contains(&self, a: u64) -> (r: bool)
        ensures
            r == window_contains(self.addr, a),
    {
        a >= self.addr && a - self.addr < VIRTIO_MMIO_IO_SIZE
    }

    /// First and last address of the device's window, as the hypervisor is
    /// told to trap them; `None` when the window runs past the end of the
    /// address space.
    pub fn io_range(&self) -> (r: Option<(u64, u64)>)
        ensures
            self.addr + VIRTIO_MMIO_IO_SIZE - 1 <= u64::MAX ==> r == Some(
                (self.addr, (self.addr + VIRTIO_MMIO_IO_SIZE - 1) as u64),
            ),
            self.addr + VIRTIO_MMIO_IO_SIZE - 1 > u64::MAX ==> r is None,
    {
        if self.addr <= u64::MAX - (VIRTIO_MMIO_IO_SIZE - 1) {
            Some((self.addr, self.addr + (VIRTIO_MMIO_IO_SIZE - 1)))
        } else {
            None
        }
    }

    /// Records that the backend raised the interrupts in `mask`.
    pub fn interrupt(&mut self, mask: u32)
        requires
            old(self).wf(),
        ensures
            final(self).wf(),
            final(self).mmio.interrupt_state == old(self).mmio.interrupt_state | mask,
            final(self).dev_id == old(self).dev_id,
            final(self).addr == old(self).addr,
            final(self).irq == old(self).irq,
    {
        self.mmio.update_interrupt_state(mask);
    }

    /// Services a request that falls in the device's window.
    pub fn io_event(&mut self, req: &mut Ioreq) -> (r: Result<MmioAction, Error>)
        requires
            old(self).wf(),
            window_contains(old(self).addr, old(req).addr),
        ensures
            final(self).wf(),
            final(self).dev_id == old(self).dev_id,
            final(self).addr == old(self).addr,
            final(self).irq == old(self).irq,
            (final(self).mmio@, *final(req), result_view(r)) == handle_ioreq(old(self).mmio@, *old(req)),
    {
        self.mmio.io_event(req)
    }
}

/// Index of the first device whose window holds `a`.
pub open spec fn owner(devs: Seq<XenDevice>, a: u64) -> Option<int>
    decreases devs.len(),
{
    if devs.len() == 0 {
        None
    } else {
        match owner(devs.drop_last(), a) {
            Some(i) => Some(i),
            None => if window_contains(devs.last().addr, a) {
                Some(devs.len() - 1)
            } else {
                None
            },
        }
    }
}

proof fn lemma_owner(devs: Seq<XenDevice>, a: u64)
    ensures
        owner(devs, a) matches Some(i) ==> 0 <= i < devs.len() && window_contains(devs[i].addr, a)
            && forall|j: int| 0 <= j < i ==> !window_contains(#[trigger] devs[j].addr, a),
        owner(devs, a) is None ==> forall|j: int|
            0 <= j < devs.len() ==> !window_contains(#[trigger] devs[j].addr, a),
    decreases devs.len(),
{
    if devs.len() > 0 {
        let t = devs.drop_last();
        lemma_owner(t, a);
        match owner(t, a) {
            Some(i) => {
                assert forall|j: int| 0 <= j < i implies !window_contains(#[trigger] devs[j].addr, a) by {
                    assert(devs[j] == t[j]);
                }
                assert(devs[i] == t[i]);
            },
            None => {
                assert forall|j: int| 0 <= j < devs.len() - 1 implies !window_contains(
                    #[trigger] devs[j].addr,
                    a,
                ) by {
                    assert(devs[j] == t[j]);
                }
            },
        }
    }
}

/// The devices of one guest.
pub struct GuestDevices {
    pub devices: Vec<XenDevice>,
}

/// The request after dispatching it to the devices `devs`, and what comes
/// back: a copy request goes to the device whose window holds its address;
/// any other request, or an address that no device claims, is left alone.
pub open spec fn dispatch(devs: Seq<XenDevice>, r: Ioreq) -> (Ioreq, Result<Option<(u32, Action)>, Error>) {
    if r.type_ != IOREQ_TYPE_COPY {
        (r, Ok(None))
    } else {
        match owner(devs, r.addr) {
            None => (r, Ok(None)),
            Some(i) => {
                let d = devs[i];
                let (s2, r2, a) = handle_ioreq(d.mmio@, r);
                (
                    r2,
                    match a {
                        Ok(act) => Ok(Some((d.dev_id, act))),
                        Err(e) => Err(e),
                    },
                )
            },
        }
    }
}

impl GuestDevices {
    pub open spec fn wf(&self) -> bool {
        &&& forall|i: int| 0 <= i < self.devices@.len() ==> (#[trigger] self.devices@[i]).wf()
        &&& forall|i: int, j: int|
            0 <= i < j < self.devices@.len() ==> !windows_overlap(
                #[trigger] self.devices@[i].addr,
                #[trigger] self.devices@[j].addr,
            )
    }

    /// A guest without devices.
    pub fn new() -> (r: GuestDevices)
        ensures
            r.wf(),
            r.devices@.len() == 0,
    {
        GuestDevices { devices: Vec::new() }
    }

    /// Whether the window at `addr` overlaps the window of a device.
    fn overlaps(&self, addr: u64) -> (r: bool)
        ensures
            r == exists|i: int|
                0 <= i < self.devices@.len() && windows_overlap(#[trigger] self.devices@[i].addr, addr),
    {
        let mut i: usize = 0;
        while i < self.devices.len()
            invariant
                i <= self.devices.len(),
                forall|k: int| 0 <= k < i ==> !windows_overlap(#[trigger] self.devices@[k].addr, addr),
            decreases self.devices.len() - i,
        {
            let b = self.devices[i].addr;
            let close = if b >= addr {
                b - addr < VIRTIO_MMIO_IO_SIZE
            } else {
                addr - b < VIRTIO_MMIO_IO_SIZE
            };
            if close {
                return true;
            }
            i = i + 1;
        }
        false
    }

    /// Adds a device, unless its window overlaps the window of a device
    /// already there.
    pub fn push(&mut self, dev: XenDevice) -> (r: Result<(), Error>)
        requires
            old(self).wf(),
            dev.wf(),
        ensures
            final(self).wf(),
            (exists|i: int|
                0 <= i < old(self).devices@.len() && windows_overlap(
                    #[trigger] old(self).devices@[i].addr,
                    dev.addr,
                )) ==> r == Err::<(), Error>(Error::OverlappingWindow(dev.addr)) && final(self).devices@
                == old(self).devices@,
            !(exists|i: int|
                0 <= i < old(self).devices@.len() && windows_overlap(
                    #[trigger] old(self).devices@[i].addr,
                    dev.addr,
                )) ==> r is Ok && final(self).devices@ == old(self).devices@.push(dev),
    {
        if self.overlaps(dev.addr) {
            return Err(Error::OverlappingWindow(dev.addr));
        }
        self.devices.push(dev);
        Ok(())
    }

    /// Index of the first device with identifier `dev_id`.
    pub fn find(&self, dev_id: u32) -> (r: Option<usize>)
        ensures
            r matches Some(i) ==> i < self.devices@.len() && self.devices@[i as int].dev_id == dev_id
                && forall|k: int| 0 <= k < i ==> (#[trigger] self.devices@[k]).dev_id != dev_id,
            r is None ==> forall|k: int|
                0 <= k < self.devices@.len() ==> (#[trigger] self.devices@[k]).dev_id != dev_id,
    {
        let mut i: usize = 0;
        while i < self.devices.len()
            invariant
                i <= self.devices.len(),
                forall|k: int| 0 <= k < i ==> (#[trigger] self.devices@[k]).dev_id != dev_id,
            decreases self.devices.len() - i,
        {
            if self.devices[i].dev_id == dev_id {
                return Some(i);
            }
            i = i + 1;
        }
        None
    }

    /// Takes out the first device with identifier `dev_id`.
    pub fn remove(&mut self, dev_id: u32) -> (r: Result<XenDevice, Error>)
        requires
            old(self).wf(),
        ensures
            final(self).wf(),
            (forall|k: int|
                0 <= k < old(self).devices@.len() ==> (#[trigger] old(self).devices@[k]).dev_id
                    != dev_id) ==> r == Err::<XenDevice, Error>(Error::DeviceNotFound(dev_id))
                && final(self).devices@ == old(self).devices@,
            r matches Ok(d) ==> exists|i: int|
                0 <= i < old(self).devices@.len() && old(self).devices@[i] == d && d.dev_id == dev_id
                    && (forall|k: int| 0 <= k < i ==> (#[trigger] old(self).devices@[k]).dev_id != dev_id)
                    && final(self).devices@ == old(self).devices@.remove(i),
            (exists|k: int|
                0 <= k < old(self).devices@.len() && (#[trigger] old(self).devices@[k]).dev_id
                    == dev_id) ==> r is Ok,
    {
        match self.find(dev_id) {
            Some(i) => {
                let d = self.devices.remove(i);
                proof {
                    let s = old(self).devices@;
                    assert forall|a: int, b: int|
                        0 <= a < b < self.devices@.len() implies !windows_overlap(
                        #[trigger] self.devices@[a].addr,
                        #[trigger] self.devices@[b].addr,
                    ) by {
                        let a2 = if a < i { a } else { a + 1 };
                        let b2 = if b < i { b } else { b + 1 };
                        assert(self.devices@[a] == s[a2]);
                        assert(self.devices@[b] == s[b2]);
                    }
                    assert forall|a: int| 0 <= a < self.devices@.len() implies (
                    #[trigger] self.devices@[a]).wf() by {
                        let a2 = if a < i { a } else { a + 1 };
                        assert(self.devices@[a] == s[a2]);
                    }
                }
                Ok(d)
            },
            None => Err(Error::DeviceNotFound(dev_id)),
        }
    }

    pub fn is_empty(&self) -> (r: bool)
        ensures
            r == (self.devices@.len() == 0),
    {
        self.devices.len() == 0
    }

    /// Records that the backend of device `dev_id` raised the interrupts in
    /// `mask`, before the guest is interrupted.
    pub fn interrupt(&mut self, dev_id: u32, mask: u32) -> (r: Result<(), Error>)
        requires
            old(self).wf(),
        ensures
            final(self).wf(),
            final(self).devices@.len() == old(self).devices@.len(),
            (forall|k: int|
                0 <= k < old(self).devices@.len() ==> (#[trigger] old(self).devices@[k]).dev_id
                    != dev_id) ==> r == Err::<(), Error>(Error::DeviceNotFound(dev_id))
                && final(self).devices@ == old(self).devices@,
            r is Ok ==> exists|i: int|
                0 <= i < old(self).devices@.len() && old(self).devices@[i].dev_id == dev_id && (
                forall|k: int| 0 <= k < i ==> (#[trigger] old(self).devices@[k]).dev_id != dev_id)
                    && final(self).devices@[i].mmio@ == (MmioState {
                    interrupt_state: old(self).devices@[i].mmio.interrupt_state | mask,
                    ..old(self).devices@[i].mmio@
                }) && final(self).devices@[i].dev_id == dev_id && final(self).devices@[i].addr
                    == old(self).devices@[i].addr && forall|j: int|
                    0 <= j < old(self).devices@.len() && j != i ==> final(self).devices@[j]
                        == old(self).devices@[j],
            (exists|k: int|
                0 <= k < old(self).devices@.len() && (#[trigger] old(self).devices@[k]).dev_id
                    == dev_id) ==> r is Ok,
    {
        match self.find(dev_id) {
            None => Err(Error::DeviceNotFound(dev_id)),
            Some(i) => {
                let ghost old_devs = self.devices@;
                self.devices[i].mmio.update_interrupt_state(mask);
                proof {
                    assert forall|a: int| 0 <= a < self.devices@.len() implies (
                    #[trigger] self.devices@[a]).wf() by {
                        if a != i {
                            assert(self.devices@[a] == old_devs[a]);
                        }
                    }
                    assert forall|a: int, b: int|
                        0 <= a < b < self.devices@.len() implies !windows_overlap(
                        #[trigger] self.devices@[a].addr,
                        #[trigger] self.devices@[b].addr,
                    ) by {
                        assert(self.devices@[a].addr == old_devs[a].addr);
                        assert(self.devices@[b].addr == old_devs[b].addr);
                    }
                }
                Ok(())
            },
        }
    }

    /// Index of the device whose window holds `a`.
    pub fn find_owner(&self, a: u64) -> (r: Option<usize>)
        ensures
            r matches Some(i) ==> owner(self.devices@, a) == Some(i as int),
            r is None ==> owner(self.devices@, a) is None,
    {
        proof {
            lemma_owner(self.devices@, a);
        }
        let mut i: usize = 0;
        while i < self.devices.len()
            invariant
                i <= self.devices.len(),
                owner(self.devices@.subrange(0, i as int), a) is None,
            decreases self.devices.len() - i,
        {
            let ghost p = self.devices@.subrange(0, i + 1);
            assert(p.drop_last() =~= self.devices@.subrange(0, i as int));
            if self.devices[i].contains(a) {
                assert(owner(p, a) == Some(i as int));
                proof {
                    lemma_owner_prefix(self.devices@, i as int + 1, a);
                }
                return Some(i);
            }
            i = i + 1;
        }
        assert(self.devices@.subrange(0, i as int) =~= self.devices@);
        None
    }

    /// Routes a request to the device whose window holds its address. The
    /// device's identifier comes back with the work left for the caller.
    pub fn io_event(&mut self, req: &mut Ioreq) -> (r: Result<Option<(u32, MmioAction)>, Error>)
        requires
            old(self).wf(),
        ensures
            final(self).wf(),
            final(self).devices@.len() == old(self).devices@.len(),
            *final(req) == dispatch(old(self).devices@, *old(req)).0,
            match (r, dispatch(old(self).devices@, *old(req)).1) {
                (Ok(None), Ok(None)) => true,
                (Ok(Some((id, a))), Ok(Some((id2, a2)))) => id == id2 && a@ == a2,
                (Err(e), Err(e2)) => e == e2,
                _ => false,
            },
            match owner(old(self).devices@, old(req).addr) {
                Some(i) if old(req).type_ == IOREQ_TYPE_COPY => {
                    &&& forall|j: int| 0 <= j < old(self).devices@.len() && j != i
                        ==> final(self).devices@[j] == old(self).devices@[j]
                    &&& final(self).devices@[i].mmio@ == handle_ioreq(old(self).devices@[i].mmio@, *old(req)).0
                    &&& final(self).devices@[i].dev_id == old(self).devices@[i].dev_id
                    &&& final(self).devices@[i].addr == old(self).devices@[i].addr
                },
                _ => final(self).devices@ == old(self).devices@,
            },
    {
        if req.type_ != IOREQ_TYPE_COPY {
            return Ok(None);
        }
        match self.find_owner(req.addr) {
            None => Ok(None),
            Some(i) => {
                proof {
                    lemma_owner(self.devices@, req.addr);
                }
                let ghost old_devs = self.devices@;
                let dev_id = self.devices[i].dev_id;
                let r = self.devices[i].io_event(req);
                proof {
                    assert forall|a: int| 0 <= a < self.devices@.len() implies (
                    #[trigger] self.devices@[a]).wf() by {
                        if a != i {
                            assert(self.devices@[a] == old_devs[a]);
                        }
                    }
                    assert forall|a: int, b: int|
                        0 <= a < b < self.devices@.len() implies !windows_overlap(
                        #[trigger] self.devices@[a].addr,
                        #[trigger] self.devices@[b].addr,
                    ) by {
                        assert(self.devices@[a].addr == old_devs[a].addr);
                        assert(self.devices@[b].addr == old_devs[b].addr);
                    }
                }
                match r {
                    Ok(a) => Ok(Some((dev_id, a))),
                    Err(e) => Err(e),
                }
            },
        }
    }
}

proof fn lemma_owner_prefix(devs: Seq<XenDevice>, n: int, a: u64)
    requires
        0 <= n <= devs.len(),
        owner(devs.subrange(0, n), a) is Some,
    ensures
        owner(devs, a) == owner(devs.subrange(0, n), a),
    decreases devs.len() - n,
{
    if n < devs.len() {
        let p = devs.subrange(0, n + 1);
        assert(p.drop_last() =~= devs.subrange(0, n));
        lemma_owner_prefix(devs, n + 1, a);
    } else {
        assert(devs.subrange(0, n) =~= devs);
    }
}

/// A request whose address falls in the window of device `i` goes to device
/// `i` and to no other, when no two windows overlap; windows that touch do
/// not overlap.
pub proof fn lemma_dispatch_to_owner(devs: Seq<XenDevice>, a: u64, i: int)
    requires
        0 <= i < devs.len(),
        window_contains(devs[i].addr, a),
        forall|j: int, k: int|
            0 <= j < k < devs.len() ==> !windows_overlap(#[trigger] devs[j].addr, #[trigger] devs[k].addr),
    ensures
        owner(devs, a) == Some(i),
        forall|j: int| 0 <= j < devs.len() && j != i ==> !window_contains(#[trigger] devs[j].addr, a),
{
    lemma_owner(devs, a);
    assert forall|j: int| 0 <= j < devs.len() && j != i implies !window_contains(
        #[trigger] devs[j].addr,
        a,
    ) by {
        if j < i {
            assert(!windows_overlap(devs[j].addr, devs[i].addr));
        } else {
            assert(!windows_overlap(devs[i].addr, devs[j].addr));
        }
    }
}

/// Two windows, one starting where the other ends, do not overlap.
pub proof fn lemma_adjacent_windows(a: u64, b: u64)
    requires
        b == a + VIRTIO_MMIO_IO_SIZE,
    ensures
        !windows_overlap(a, b),
        forall|x: u64| window_contains(a, x) ==> !window_contains(b, x),
{
}

/// Servicing a request leaves its state alone: only its data can change.
pub proof fn lemma_handle_keeps_state(s: MmioState, r: Ioreq)
    ensures
        handle_ioreq(s, r).1 == (Ioreq { data: handle_ioreq(s, r).1.data, ..r }),
{
}

/// The life of a request: one that is ready moves to in-process when
/// claimed, keeps that state while the devices serve it, and then moves to
/// response-ready, with only its data changed on the way; one that is not
/// ready is left untouched.
pub proof fn lemma_ioreq_round_trip(devs: Seq<XenDevice>, r: Ioreq)
    ensures
        r.state == STATE_IOREQ_READY ==> ({
            let claimed = begun(r);
            let served = dispatch(devs, claimed).0;
            let done = finished(served);
            &&& claimed.state == STATE_IOREQ_INPROCESS
            &&& served.state == STATE_IOREQ_INPROCESS
            &&& done.state == STATE_IORESP_READY
            &&& done == (Ioreq { data: served.data, state: STATE_IORESP_READY, ..r })
        }),
        r.state != STATE_IOREQ_READY ==> begun(r) == r,
{
    let claimed = begun(r);
    match owner(devs, claimed.addr) {
        Some(i) => {
            lemma_handle_keeps_state(devs[i].mmio@, claimed);
        },
        None => {},
    }
}

/// A copy request whose address falls in the window of device `i`, when no
/// two windows overlap, is served by device `i`'s transport at the offset
/// from its base, and by no other: what comes back is that transport's
/// answer, tagged with device `i`'s id.
pub proof fn lemma_dispatch_copy(devs: Seq<XenDevice>, r: Ioreq, i: int)
    requires
        r.type_ == IOREQ_TYPE_COPY,
        0 <= i < devs.len(),
        window_contains(devs[i].addr, r.addr),
        forall|j: int, k: int|
            0 <= j < k < devs.len() ==> !windows_overlap(#[trigger] devs[j].addr, #[trigger] devs[k].addr),
    ensures
        ({
            let (s2, r2, a) = handle_ioreq(devs[i].mmio@, r);
            &&& dispatch(devs, r).0 == r2
            &&& dispatch(devs, r).1 == match a {
                Ok(act) => Ok(Some((devs[i].dev_id, act))),
                Err(e) => Err(e),
            }
        }),
{
    lemma_dispatch_to_owner(devs, r.addr, i);
}

/// Of two devices whose windows touch, the first address of the second
/// window goes to the second device at offset 0, and the last address of
/// the first window to the first device at offset `0x1ff`.
pub proof fn lemma_dispatch_adjacent(devs: Seq<XenDevice>, r: Ioreq)
    requires
        devs.len() == 2,
        devs[1].addr == devs[0].addr + VIRTIO_MMIO_IO_SIZE,
        r.type_ == IOREQ_TYPE_COPY,
    ensures
        r.addr == devs[1].addr ==> owner(devs, r.addr) == Some(1int) && r.addr - devs[1].addr == 0,
        r.addr == devs[0].addr + 0x1ff ==> owner(devs, r.addr) == Some(0int) && r.addr - devs[0].addr
            == 0x1ff,
{
    lemma_adjacent_windows(devs[0].addr, devs[1].addr);
    if r.addr == devs[1].addr {
        lemma_dispatch_to_owner(devs, r.addr, 1);
    }
    if r.addr == devs[0].addr + 0x1ff {
        lemma_dispatch_to_owner(devs, r.addr, 0);
    }
}

} // verus!
