//! Guest memory regions that the device model maps: the rings of each
//! virtqueue, the guest memory around them, and the size of a guest.

use vstd::prelude::*;
use crate::error::Error;
use crate::regs::{
    GUEST_RAM0_BASE, GUEST_RAM0_SIZE, GUEST_RAM1_BASE, MMAP_XEN_FOREIGN, MMAP_XEN_GRANT,
    MMAP_XEN_NO_ADVANCE_MAP, XEN_GRANT_ADDR_OFF,
};

verus! {

/// A range of guest memory to map, with the Xen mapping flags to use.
#[derive(Debug, Clone, Copy, PartialEq, Eq, Structural)]
pub struct Region {
    pub addr: u64,
    pub size: u64,
    pub flags: u32,
}

/// Bytes of a descriptor table entry.
pub const DESC_ENTRY_SIZE: u64 = 16;
/// Bytes of one available ring entry, and of the event index after the ring.
pub const AVAIL_ENTRY_SIZE: u64 = 2;
/// Bytes of the flags and index that precede the available ring.
pub const AVAIL_HEADER_SIZE: u64 = 4;
/// Bytes of one used ring element.
pub const USED_ENTRY_SIZE: u64 = 8;
/// Bytes of the flags and index that precede the used ring.
pub const USED_HEADER_SIZE: u64 = 4;
/// Bytes of the event index that follows a ring.
pub const EVENT_IDX_SIZE: u64 = 2;

pub open spec fn desc_table_bytes(n: nat) -> nat {
    (DESC_ENTRY_SIZE * n) as nat
}

pub open spec fn avail_ring_bytes(n: nat) -> nat {
    (AVAIL_ENTRY_SIZE * n + AVAIL_HEADER_SIZE + EVENT_IDX_SIZE) as nat
}

pub open spec fn used_ring_bytes(n: nat) -> nat {
    (USED_ENTRY_SIZE * n + USED_HEADER_SIZE + EVENT_IDX_SIZE) as nat
}

/// A grant mapped region: the grant flag is always added, and an empty
/// range maps nothing.
pub open spec fn grant_regions(addr: u64, size: nat, flags: u32) -> Seq<Region> {
    if size == 0 {
        seq![]
    } else {
        seq![Region { addr, size: size as u64, flags: flags | MMAP_XEN_GRANT }]
    }
}

/// The regions that hold the three rings of a queue of `n` entries.
pub open spec fn ring_regions(n: nat, desc: u64, avail: u64, used: u64) -> Seq<Region> {
    grant_regions(desc, desc_table_bytes(n), 0) + grant_regions(avail, avail_ring_bytes(n), 0)
        + grant_regions(used, used_ring_bytes(n), 0)
}

/// Region of `size` bytes at `addr` to be grant mapped with `flags`; `None`
/// for an empty range.
pub fn grant_region(addr: u64, size: u64, flags: u32) -> (r: Option<Region>)
    ensures
        r matches Some(g) ==> seq![g] == grant_regions(addr, size as nat, flags),
        r is None ==> grant_regions(addr, size as nat, flags) == Seq::<Region>::empty(),
{
    if size == 0 {
        None
    } else {
        Some(Region { addr, size, flags: flags | MMAP_XEN_GRANT })
    }
}

fn push_grant_region(v: &mut Vec<Region>, addr: u64, size: u64, flags: u32)
    ensures
        final(v)@ == old(v)@ + grant_regions(addr, size as nat, flags),
{
    match grant_region(addr, size, flags) {
        Some(g) => v.push(g),
        None => {
            assert(old(v)@ + Seq::<Region>::empty() =~= old(v)@);
        },
    }
}

/// The grant mapped regions that hold the descriptor table, the available
/// ring and the used ring of a queue of `n` entries.
pub fn queue_ring_regions(n: u32, desc: u64, avail: u64, used: u64) -> (r: Vec<Region>)
    ensures
        r@ == ring_regions(n as nat, desc, avail, used),
{
    let mut v: Vec<Region> = Vec::new();
    let n64 = n as u64;
    push_grant_region(&mut v, desc, DESC_ENTRY_SIZE * n64, 0);
    push_grant_region(&mut v, avail, AVAIL_ENTRY_SIZE * n64 + AVAIL_HEADER_SIZE + EVENT_IDX_SIZE, 0);
    push_grant_region(&mut v, used, USED_ENTRY_SIZE * n64 + USED_HEADER_SIZE + EVENT_IDX_SIZE, 0);
    proof {
        assert(Seq::<Region>::empty() + grant_regions(desc, desc_table_bytes(n as nat), 0)
            =~= grant_regions(desc, desc_table_bytes(n as nat), 0));
    }
    v
}

/// The one region that maps the whole memory of a guest of `guest_size`
/// bytes with a foreign mapping.
pub fn foreign_region(guest_size: u64) -> (r: Region)
    ensures
        r == (Region { addr: GUEST_RAM0_BASE, size: guest_size, flags: MMAP_XEN_FOREIGN }),
{
    Region { addr: GUEST_RAM0_BASE, size: guest_size, flags: MMAP_XEN_FOREIGN }
}

// ---------------------------------------------------------------------------
// Regions kept sorted by start address.

pub open spec fn sorted_by_addr(s: Seq<Region>) -> bool {
    forall|i: int, j: int| 0 <= i < j < s.len() ==> s[i].addr <= s[j].addr
}

/// `s` with `r` inserted after every region that does not start above it.
pub open spec fn insert_by_addr(s: Seq<Region>, r: Region) -> Seq<Region>
    decreases s.len(),
{
    if s.len() == 0 {
        seq![r]
    } else if s.last().addr <= r.addr {
        s.push(r)
    } else {
        insert_by_addr(s.drop_last(), r).push(s.last())
    }
}

/// Each region of `new` inserted in turn.
pub open spec fn insert_all_by_addr(s: Seq<Region>, new: Seq<Region>) -> Seq<Region>
    decreases new.len(),
{
    if new.len() == 0 {
        s
    } else {
        insert_by_addr(insert_all_by_addr(s, new.drop_last()), new.last())
    }
}

proof fn lemma_insert_by_addr(s: Seq<Region>, r: Region)
    requires
        sorted_by_addr(s),
    ensures
        sorted_by_addr(insert_by_addr(s, r)),
        insert_by_addr(s, r).len() == s.len() + 1,
        insert_by_addr(s, r).to_multiset() == s.to_multiset().insert(r),
        forall|k: int| 0 <= k < s.len() && s[k].addr <= r.addr ==> insert_by_addr(s, r)[k] == s[k],
    decreases s.len(),
{
    broadcast use vstd::seq_lib::group_to_multiset_ensures;
    if s.len() == 0 {
        assert(seq![r] =~= Seq::<Region>::empty().push(r));
    } else if s.last().addr <= r.addr {
    } else {
        let t = s.drop_last();
        lemma_insert_by_addr(t, r);
        let u = insert_by_addr(t, r);
        assert(s =~= t.push(s.last()));
        assert forall|i: int, j: int| 0 <= i < j < u.len() + 1 implies u.push(s.last())[i].addr
            <= u.push(s.last())[j].addr by {
            if j == u.len() {
                if u[i] == r {
                } else {
                    assert(u.to_multiset().count(u[i]) > 0);
                    assert(t.to_multiset().count(u[i]) > 0);
                    assert(t.contains(u[i]));
                }
            }
        }
    }
}

proof fn lemma_insert_all_by_addr(s: Seq<Region>, new: Seq<Region>)
    requires
        sorted_by_addr(s),
    ensures
        sorted_by_addr(insert_all_by_addr(s, new)),
        insert_all_by_addr(s, new).to_multiset() == s.to_multiset().add(new.to_multiset()),
    decreases new.len(),
{
    broadcast use vstd::seq_lib::group_to_multiset_ensures;
    if new.len() == 0 {
        assert(s.to_multiset().add(new.to_multiset()) =~= s.to_multiset());
    } else {
        let t = new.drop_last();
        lemma_insert_all_by_addr(s, t);
        lemma_insert_by_addr(insert_all_by_addr(s, t), new.last());
        assert(new =~= t.push(new.last()));
        assert(s.to_multiset().add(t.to_multiset()).insert(new.last()) =~= s.to_multiset().add(
            new.to_multiset(),
        ));
    }
}

/// Inserts `r` into `v`, which is sorted by start address, after every
/// region that does not start above it.
pub fn insert_region(v: &mut Vec<Region>, r: Region)
    requires
        sorted_by_addr(old(v)@),
    ensures
        final(v)@ == insert_by_addr(old(v)@, r),
        sorted_by_addr(final(v)@),
{
    proof {
        lemma_insert_by_addr(old(v)@, r);
    }
    let ghost s0 = v@;
    let mut i: usize = v.len();
    assert(s0.subrange(0, i as int) =~= s0);
    assert(insert_by_addr(s0, r) + s0.subrange(i as int, s0.len() as int) =~= insert_by_addr(s0, r));
    // The regions at `i..` start above `r`; moving down keeps `insert_by_addr`
    // of the prefix followed by the suffix.
    while i > 0 && v[i - 1].addr > r.addr
        invariant
            i <= v.len() == s0.len(),
            v@ == s0,
            forall|k: int| i <= k < s0.len() ==> s0[k].addr > r.addr,
            insert_by_addr(s0, r) == insert_by_addr(s0.subrange(0, i as int), r) + s0.subrange(
                i as int,
                s0.len() as int,
            ),
        decreases i,
    {
        let ghost p = s0.subrange(0, i as int);
        let ghost q = s0.subrange(0, i - 1);
        assert(p.drop_last() =~= q);
        assert(insert_by_addr(p, r) == insert_by_addr(q, r).push(p.last()));
        assert(insert_by_addr(q, r).push(s0[i - 1]) + s0.subrange(i as int, s0.len() as int)
            =~= insert_by_addr(q, r) + s0.subrange(i - 1, s0.len() as int));
        i = i - 1;
    }
    proof {
        let p = s0.subrange(0, i as int);
        if i > 0 {
            assert(p.last() == s0[i - 1]);
        }
        assert(insert_by_addr(p, r) =~= p.push(r)) by {
            if i > 0 {
            } else {
                assert(p.len() == 0);
                assert(seq![r] =~= p.push(r));
            }
        }
        assert(p.push(r) + s0.subrange(i as int, s0.len() as int) =~= s0.insert(i as int, r));
    }
    v.insert(i, r);
}

/// Inserts each region of `new` into `v` in turn.
pub fn insert_regions(v: &mut Vec<Region>, new: &Vec<Region>)
    requires
        sorted_by_addr(old(v)@),
    ensures
        final(v)@ == insert_all_by_addr(old(v)@, new@),
        sorted_by_addr(final(v)@),
        final(v)@.to_multiset() == old(v)@.to_multiset().add(new@.to_multiset()),
{
    proof {
        lemma_insert_all_by_addr(old(v)@, new@);
    }
    let mut i: usize = 0;
    while i < new.len()
        invariant
            i <= new.len(),
            v@ == insert_all_by_addr(old(v)@, new@.subrange(0, i as int)),
            sorted_by_addr(v@),
        decreases new.len() - i,
    {
        assert(new@.subrange(0, i + 1).drop_last() =~= new@.subrange(0, i as int));
        insert_region(v, new[i]);
        i = i + 1;
    }
    assert(new@.subrange(0, new@.len() as int) =~= new@);
}

// ---------------------------------------------------------------------------
// The guest memory that the rings leave unmapped.

pub open spec fn page_align_up(x: int) -> int {
    ((x + 4095) / 4096) * 4096
}

pub open spec fn max_int(a: int, b: int) -> int {
    if a >= b { a } else { b }
}

pub open spec fn remaining_flags() -> u32 {
    MMAP_XEN_NO_ADVANCE_MAP | MMAP_XEN_GRANT
}

/// Walks the first `n` regions of `rs` from the start of the grant address
/// space: the gaps found before them, and the first page boundary at or
/// after the end of everything walked.
pub open spec fn gap_walk(rs: Seq<Region>, n: nat) -> (Seq<Region>, int)
    decreases n,
{
    if n == 0 {
        (seq![], XEN_GRANT_ADDR_OFF as int)
    } else {
        let (gaps, off) = gap_walk(rs, (n - 1) as nat);
        let r = rs[n - 1];
        let gaps2 = if r.addr > off {
            gaps.push(Region { addr: off as u64, size: (r.addr - off) as u64, flags: remaining_flags() })
        } else {
            gaps
        };
        (gaps2, max_int(off, page_align_up(r.addr + r.size)))
    }
}

/// The regions, with no advance mapping, that cover the guest memory of
/// `guest_size` bytes that the sorted regions `rs` leave out: the gaps
/// between them and the tail after the last one.
pub open spec fn remaining_regions(rs: Seq<Region>, guest_size: u64) -> Seq<Region> {
    let (gaps, off) = gap_walk(rs, rs.len());
    let end = XEN_GRANT_ADDR_OFF + guest_size;
    if off < end && off <= u64::MAX {
        gaps.push(Region { addr: off as u64, size: (end - off) as u64, flags: remaining_flags() })
    } else {
        gaps
    }
}

proof fn lemma_gap_walk_bounds(rs: Seq<Region>, n: nat)
    requires
        n <= rs.len(),
    ensures
        XEN_GRANT_ADDR_OFF <= gap_walk(rs, n).1 <= page_align_up(2 * u64::MAX),
    decreases n,
{
    if n > 0 {
        lemma_gap_walk_bounds(rs, (n - 1) as nat);
        let r = rs[n - 1];
        assert(page_align_up(r.addr + r.size) <= page_align_up(2 * u64::MAX)) by {
            let a = r.addr + r.size;
            let b = 2 * u64::MAX;
            assert((a + 4095) / 4096 <= (b + 4095) / 4096) by (nonlinear_arith)
                requires a <= b;
            assert(((a + 4095) / 4096) * 4096 <= ((b + 4095) / 4096) * 4096) by (nonlinear_arith)
                requires (a + 4095) / 4096 <= (b + 4095) / 4096;
        }
    }
}

/// The guest memory that the sorted regions `rs` leave unmapped, to be grant
/// mapped without advance mapping once every queue is set up.
pub fn remaining_guest_regions(rs: &Vec<Region>, guest_size: u64) -> (r: Vec<Region>)
    ensures
        r@ == remaining_regions(rs@, guest_size),
{
    let mut gaps: Vec<Region> = Vec::new();
    let mut off: u128 = XEN_GRANT_ADDR_OFF as u128;
    let mut i: usize = 0;
    while i < rs.len()
        invariant
            i <= rs.len(),
            (gaps@, off as int) == gap_walk(rs@, i as nat),
        decreases rs.len() - i,
    {
        proof {
            lemma_gap_walk_bounds(rs@, i as nat);
        }
        let r = rs[i];
        if (r.addr as u128) > off {
            gaps.push(Region { addr: off as u64, size: (r.addr as u128 - off) as u64, flags: MMAP_XEN_NO_ADVANCE_MAP | MMAP_XEN_GRANT });
        }
        let end: u128 = r.addr as u128 + r.size as u128 + 4095;
        let aligned: u128 = (end / 4096) * 4096;
        if aligned > off {
            off = aligned;
        }
        i = i + 1;
    }
    proof {
        lemma_gap_walk_bounds(rs@, i as nat);
        assert(rs@.len() == i);
    }
    let end: u128 = XEN_GRANT_ADDR_OFF as u128 + guest_size as u128;
    if off < end && off <= u64::MAX as u128 {
        gaps.push(Region { addr: off as u64, size: (end - off) as u64, flags: MMAP_XEN_NO_ADVANCE_MAP | MMAP_XEN_GRANT });
    }
    gaps
}

// ---------------------------------------------------------------------------
// Size of a guest.

/// Bytes of guest memory of a domain from the domain information records the
/// hypervisor returned for it: exactly one record, for the domain asked for.
/// The last four pages of the domain do not hold guest memory.
pub open spec fn spec_dom_size(n_records: usize, found: u16, domid: u16, nr_pages: u64) -> Result<u64, Error> {
    if n_records != 1 {
        Err(Error::InvalidDomainInfo(n_records, domid, 0))
    } else if found != domid || nr_pages < 4 {
        Err(Error::InvalidDomainInfo(n_records, domid, found as usize))
    } else {
        Ok(((nr_pages - 4) as u64) << 12u64)
    }
}

/// Bytes of guest memory of `domid`, from the number of domain information
/// records returned, and the domain and page count of the first one.
pub fn dom_size(n_records: usize, found: u16, domid: u16, nr_pages: u64) -> (r: Result<u64, Error>)
    ensures
        r == spec_dom_size(n_records, found, domid, nr_pages),
{
    if n_records != 1 {
        Err(Error::InvalidDomainInfo(n_records, domid, 0))
    } else if found != domid || nr_pages < 4 {
        Err(Error::InvalidDomainInfo(n_records, domid, found as usize))
    } else {
        Ok((nr_pages - 4) << 12u64)
    }
}

/// The RAM banks of an Arm guest of `size` bytes: the first bank holds up to
/// 3 GiB, the rest goes to the second bank. Each is foreign mapped.
pub open spec fn ram_banks(size: u64) -> Seq<Region> {
    if size == 0 {
        seq![]
    } else if size <= GUEST_RAM0_SIZE {
        seq![Region { addr: GUEST_RAM0_BASE, size, flags: MMAP_XEN_FOREIGN }]
    } else {
        seq![
            Region { addr: GUEST_RAM0_BASE, size: GUEST_RAM0_SIZE, flags: MMAP_XEN_FOREIGN },
            Region { addr: GUEST_RAM1_BASE, size: (size - GUEST_RAM0_SIZE) as u64, flags: MMAP_XEN_FOREIGN },
        ]
    }
}

/// The non-empty RAM banks that hold the memory of a guest of `size` bytes.
pub fn guest_ram_banks(size: u64) -> (r: Vec<Region>)
    ensures
        r@ == ram_banks(size),
{
    let mut v: Vec<Region> = Vec::new();
    if size == 0 {
    } else if size <= GUEST_RAM0_SIZE {
        v.push(Region { addr: GUEST_RAM0_BASE, size, flags: MMAP_XEN_FOREIGN });
    } else {
        v.push(Region { addr: GUEST_RAM0_BASE, size: GUEST_RAM0_SIZE, flags: MMAP_XEN_FOREIGN });
        v.push(Region { addr: GUEST_RAM1_BASE, size: size - GUEST_RAM0_SIZE, flags: MMAP_XEN_FOREIGN });
    }
    proof {
        assert(v@ =~= ram_banks(size));
    }
    v
}

} // verus!
