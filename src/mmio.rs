//! The virtio-mmio register file of one device: feature negotiation, queue
//! setup and the activation handshake.
//!
//! The transport changes only its own registers. What has to happen outside
//! (reading the backend's configuration space, negotiating features with the
//! backend, mapping guest memory, activating the backend, kicking a queue) is
//! returned as an [`MmioAction`] for the caller to perform.

use vstd::prelude::*;
use crate::error::{Access, Error};
use crate::ioreq::Ioreq;
use crate::layout::{
    foreign_region, insert_all_by_addr, insert_regions, queue_ring_regions, remaining_guest_regions,
    remaining_regions, ring_regions, sorted_by_addr, Region,
};
use crate::regs::{
    IOREQ_READ, IOREQ_WRITE, MMIO_MAGIC, MMIO_VENDOR_ID, MMIO_VERSION, TRANSPORT_FEATURES,
    VIRTIO_MMIO_CONFIG, VIRTIO_MMIO_CONFIG_GENERATION, VIRTIO_MMIO_DEVICE_FEATURES,
    VIRTIO_MMIO_DEVICE_FEATURES_SEL, VIRTIO_MMIO_DEVICE_ID, VIRTIO_MMIO_DRIVER_FEATURES,
    VIRTIO_MMIO_DRIVER_FEATURES_SEL, VIRTIO_MMIO_INTERRUPT_ACK, VIRTIO_MMIO_INTERRUPT_STATUS,
    VIRTIO_MMIO_MAGIC_VALUE, VIRTIO_MMIO_QUEUE_AVAIL_HIGH, VIRTIO_MMIO_QUEUE_AVAIL_LOW,
    VIRTIO_MMIO_QUEUE_DESC_HIGH, VIRTIO_MMIO_QUEUE_DESC_LOW, VIRTIO_MMIO_QUEUE_NOTIFY,
    VIRTIO_MMIO_QUEUE_NUM, VIRTIO_MMIO_QUEUE_NUM_MAX, VIRTIO_MMIO_QUEUE_READY,
    VIRTIO_MMIO_QUEUE_SEL, VIRTIO_MMIO_QUEUE_USED_HIGH, VIRTIO_MMIO_QUEUE_USED_LOW,
    VIRTIO_MMIO_STATUS, VIRTIO_MMIO_VENDOR_ID, VIRTIO_MMIO_VERSION,
};

verus! {

/// Registers of one virtqueue.
#[derive(Debug, Clone, Copy, PartialEq, Eq, Structural)]
pub struct VirtQueue {
    pub ready: u32,
    /// Number of entries the driver chose.
    pub size: u32,
    /// Largest number of entries the backend accepts.
    pub size_max: u32,
    pub desc_lo: u32,
    pub desc_hi: u32,
    pub avail_lo: u32,
    pub avail_hi: u32,
    pub used_lo: u32,
    pub used_hi: u32,
}

/// A queue as handed to the backend: its index, size and ring addresses.
#[derive(Debug, Clone, Copy, PartialEq, Eq, Structural)]
pub struct QueueSetup {
    pub index: usize,
    pub size: u32,
    pub desc: u64,
    pub avail: u64,
    pub used: u64,
}

/// Work that a register access leaves for the caller.
#[derive(Debug, Clone, PartialEq, Eq)]
pub enum MmioAction {
    /// Nothing beyond the register change.
    Nothing,
    /// Read the backend's configuration space at this offset into the
    /// request's data.
    ConfigRead(u64),
    /// Write the request's data to the backend's configuration space at this
    /// offset.
    ConfigWrite(u64),
    /// Negotiate these driver features with the backend.
    NegotiateFeatures(u64),
    /// Notify the backend that this queue has new buffers.
    Kick(usize),
    /// Drop this queue at the backend.
    ResetQueue(usize),
    /// Map these guest memory regions.
    MapRegions(Vec<Region>),
    /// Map these guest memory regions, then activate the backend with every
    /// region mapped so far and these queues.
    Activate(Vec<Region>, Vec<QueueSetup>),
}

/// What an [`MmioAction`] asks for, with its lists as sequences.
pub enum Action {
    Nothing,
    ConfigRead(u64),
    ConfigWrite(u64),
    NegotiateFeatures(u64),
    Kick(usize),
    ResetQueue(usize),
    MapRegions(Seq<Region>),
    Activate(Seq<Region>, Seq<QueueSetup>),
}

impl View for MmioAction {
    type V = Action;

    open spec fn view(&self) -> Action {
        match self {
            MmioAction::Nothing => Action::Nothing,
            MmioAction::ConfigRead(o) => Action::ConfigRead(*o),
            MmioAction::ConfigWrite(o) => Action::ConfigWrite(*o),
            MmioAction::NegotiateFeatures(f) => Action::NegotiateFeatures(*f),
            MmioAction::Kick(q) => Action::Kick(*q),
            MmioAction::ResetQueue(q) => Action::ResetQueue(*q),
            MmioAction::MapRegions(v) => Action::MapRegions(v@),
            MmioAction::Activate(v, q) => Action::Activate(v@, q@),
        }
    }
}

pub open spec fn result_view(r: Result<MmioAction, Error>) -> Result<Action, Error> {
    match r {
        Ok(a) => Ok(a@),
        Err(e) => Err(e),
    }
}

/// The register state of one device.
pub struct XenMmio {
    /// Guest physical base of the device's window.
    pub addr: u64,
    /// Virtio device type that the backend implements.
    pub device_type: u32,
    /// Features that the backend offers.
    pub device_features: u64,
    pub status: u32,
    pub queue_sel: u32,
    pub device_features_sel: u32,
    pub driver_features: u64,
    pub driver_features_sel: u32,
    pub interrupt_state: u32,
    pub vq: Vec<VirtQueue>,
    /// Guest memory regions mapped so far, sorted by start address.
    pub regions: Vec<Region>,
    /// The whole guest memory is foreign mapped up front; otherwise memory is
    /// grant mapped, rings first.
    pub foreign_mapping: bool,
    /// Bytes of guest memory.
    pub guest_size: u64,
    /// The backend was activated.
    pub activated: bool,
}

/// The state of a transport, with its lists as sequences.
pub struct MmioState {
    pub addr: u64,
    pub device_type: u32,
    pub device_features: u64,
    pub status: u32,
    pub queue_sel: u32,
    pub device_features_sel: u32,
    pub driver_features: u64,
    pub driver_features_sel: u32,
    pub interrupt_state: u32,
    pub vq: Seq<VirtQueue>,
    pub regions: Seq<Region>,
    pub foreign_mapping: bool,
    pub guest_size: u64,
    pub activated: bool,
}

impl View for XenMmio {
    type V = MmioState;

    open spec fn view(&self) -> MmioState {
        MmioState {
            addr: self.addr,
            device_type: self.device_type,
            device_features: self.device_features,
            status: self.status,
            queue_sel: self.queue_sel,
            device_features_sel: self.device_features_sel,
            driver_features: self.driver_features,
            driver_features_sel: self.driver_features_sel,
            interrupt_state: self.interrupt_state,
            vq: self.vq@,
            regions: self.regions@,
            foreign_mapping: self.foreign_mapping,
            guest_size: self.guest_size,
            activated: self.activated,
        }
    }
}

/// A 64-bit address from the two 32-bit halves the driver wrote.
pub open spec fn addr64(hi: u32, lo: u32) -> u64 {
    ((hi as u64) << 32u64) | (lo as u64)
}

pub open spec fn desc_addr(q: VirtQueue) -> u64 {
    addr64(q.desc_hi, q.desc_lo)
}

pub open spec fn avail_addr(q: VirtQueue) -> u64 {
    addr64(q.avail_hi, q.avail_lo)
}

pub open spec fn used_addr(q: VirtQueue) -> u64 {
    addr64(q.used_hi, q.used_lo)
}

/// Number of queues among the first `n` that are ready.
pub open spec fn ready_prefix(vq: Seq<VirtQueue>, n: nat) -> nat
    decreases n,
{
    if n == 0 {
        0
    } else {
        ready_prefix(vq, (n - 1) as nat) + if vq[n - 1].ready == 1 { 1nat } else { 0nat }
    }
}

pub open spec fn ready_count(vq: Seq<VirtQueue>) -> nat {
    ready_prefix(vq, vq.len())
}

pub open spec fn queue_setup(vq: Seq<VirtQueue>, i: int) -> QueueSetup {
    QueueSetup {
        index: i as usize,
        size: vq[i].size,
        desc: desc_addr(vq[i]),
        avail: avail_addr(vq[i]),
        used: used_addr(vq[i]),
    }
}

/// Every queue as handed to the backend, in index order.
pub open spec fn queue_setups(vq: Seq<VirtQueue>) -> Seq<QueueSetup> {
    Seq::new(vq.len(), |i: int| queue_setup(vq, i))
}

/// The state with the selected queue replaced by `q`.
pub open spec fn with_queue(s: MmioState, q: VirtQueue) -> MmioState {
    MmioState { vq: s.vq.update(s.queue_sel as int, q), ..s }
}

pub open spec fn fresh_queue(size_max: u16) -> VirtQueue {
    VirtQueue {
        ready: 0,
        size: 0,
        size_max: size_max as u32,
        desc_lo: 0,
        desc_hi: 0,
        avail_lo: 0,
        avail_hi: 0,
        used_lo: 0,
        used_hi: 0,
    }
}

/// The state of a new transport.
pub open spec fn initial_state(
    sizes: Seq<u16>,
    addr: u64,
    foreign_mapping: bool,
    guest_size: u64,
    device_type: u32,
    device_features: u64,
) -> MmioState {
    MmioState {
        addr,
        device_type,
        device_features,
        status: 0,
        queue_sel: 0,
        device_features_sel: 0,
        driver_features: 0,
        driver_features_sel: 0,
        interrupt_state: 0,
        vq: Seq::new(sizes.len(), |i: int| fresh_queue(sizes[i])),
        regions: if foreign_mapping {
            seq![Region { addr: crate::regs::GUEST_RAM0_BASE, size: guest_size, flags: crate::regs::MMAP_XEN_FOREIGN }]
        } else {
            seq![]
        },
        foreign_mapping,
        guest_size,
        activated: false,
    }
}

/// The features offered to the driver: the backend's, plus version 1.
pub open spec fn offered_features(s: MmioState) -> u64 {
    s.device_features | TRANSPORT_FEATURES
}

/// Registers that the driver only reads.
pub open spec fn read_only_reg(offset: u64) -> bool {
    offset == VIRTIO_MMIO_MAGIC_VALUE || offset == VIRTIO_MMIO_VERSION || offset
        == VIRTIO_MMIO_DEVICE_ID || offset == VIRTIO_MMIO_VENDOR_ID || offset
        == VIRTIO_MMIO_INTERRUPT_STATUS || offset == VIRTIO_MMIO_DEVICE_FEATURES || offset
        == VIRTIO_MMIO_QUEUE_NUM_MAX || offset == VIRTIO_MMIO_CONFIG_GENERATION
}

/// Registers that the driver only writes.
pub open spec fn write_only_reg(offset: u64) -> bool {
    offset == VIRTIO_MMIO_DEVICE_FEATURES_SEL || offset == VIRTIO_MMIO_DRIVER_FEATURES_SEL
        || offset == VIRTIO_MMIO_DRIVER_FEATURES || offset == VIRTIO_MMIO_QUEUE_SEL || offset
        == VIRTIO_MMIO_QUEUE_NUM || offset == VIRTIO_MMIO_QUEUE_NOTIFY || offset
        == VIRTIO_MMIO_INTERRUPT_ACK
}

/// What a read of the register at `offset` returns.
pub open spec fn read_reg(s: MmioState, offset: u64) -> Result<u32, Error> {
    let sel = s.queue_sel;
    let q = s.vq[sel as int];
    let queue_ok = (sel as int) < s.vq.len();
    if offset == VIRTIO_MMIO_MAGIC_VALUE {
        Ok(MMIO_MAGIC)
    } else if offset == VIRTIO_MMIO_VERSION {
        Ok(MMIO_VERSION)
    } else if offset == VIRTIO_MMIO_DEVICE_ID {
        Ok(s.device_type)
    } else if offset == VIRTIO_MMIO_VENDOR_ID {
        Ok(MMIO_VENDOR_ID)
    } else if offset == VIRTIO_MMIO_STATUS {
        Ok(s.status)
    } else if offset == VIRTIO_MMIO_INTERRUPT_STATUS {
        Ok(s.interrupt_state)
    } else if offset == VIRTIO_MMIO_DEVICE_FEATURES {
        if s.device_features_sel == 0 {
            Ok(offered_features(s) as u32)
        } else if s.device_features_sel == 1 {
            Ok((offered_features(s) >> 32u64) as u32)
        } else {
            Err(Error::InvalidFeatureSel(s.device_features_sel))
        }
    } else if offset == VIRTIO_MMIO_CONFIG_GENERATION {
        Ok(0)
    } else if offset == VIRTIO_MMIO_QUEUE_NUM_MAX || offset == VIRTIO_MMIO_QUEUE_READY
        || offset == VIRTIO_MMIO_QUEUE_DESC_LOW || offset == VIRTIO_MMIO_QUEUE_DESC_HIGH
        || offset == VIRTIO_MMIO_QUEUE_AVAIL_LOW || offset == VIRTIO_MMIO_QUEUE_AVAIL_HIGH
        || offset == VIRTIO_MMIO_QUEUE_USED_LOW || offset == VIRTIO_MMIO_QUEUE_USED_HIGH {
        if !queue_ok {
            Err(Error::InvalidQueueSel(sel))
        } else if offset == VIRTIO_MMIO_QUEUE_NUM_MAX {
            Ok(q.size_max)
        } else if offset == VIRTIO_MMIO_QUEUE_READY {
            Ok(q.ready)
        } else if offset == VIRTIO_MMIO_QUEUE_DESC_LOW {
            Ok(q.desc_lo)
        } else if offset == VIRTIO_MMIO_QUEUE_DESC_HIGH {
            Ok(q.desc_hi)
        } else if offset == VIRTIO_MMIO_QUEUE_AVAIL_LOW {
            Ok(q.avail_lo)
        } else if offset == VIRTIO_MMIO_QUEUE_AVAIL_HIGH {
            Ok(q.avail_hi)
        } else if offset == VIRTIO_MMIO_QUEUE_USED_LOW {
            Ok(q.used_lo)
        } else {
            Ok(q.used_hi)
        }
    } else if write_only_reg(offset) {
        Err(Error::InvalidMmioDir(IOREQ_READ))
    } else {
        Err(Error::InvalidMmioAddr(Access::Read, offset))
    }
}

/// A write to the driver features word selected by `driver_features_sel`:
/// the halves are OR-accumulated. The high half is written first and must
/// carry version 1; the low half completes the value, which is then
/// negotiated with the backend.
pub open spec fn write_driver_features(s: MmioState, data: u64) -> (MmioState, Result<Action, Error>) {
    let sel = s.driver_features_sel;
    if sel > 1 {
        (s, Err(Error::InvalidFeatureSel(sel)))
    } else {
        let half = (data as u32) as u64;
        let f = if sel == 0 { s.driver_features | half } else { s.driver_features | (half << 32u64) };
        let s2 = MmioState { driver_features: f, ..s };
        if sel == 1 {
            if f & 0x1_0000_0000u64 == 0 {
                (s2, Err(Error::MmioLegacyNotSupported))
            } else {
                (s2, Ok(Action::Nothing))
            }
        } else {
            (s2, Ok(Action::NegotiateFeatures(f)))
        }
    }
}

/// A write of 1 to the ready register of the selected queue: the queue is
/// refused while one of its ring addresses is zero or its size is not a
/// valid virtqueue size, and a queue that is already ready stays as it is. Otherwise it becomes ready, its rings are
/// grant mapped (unless the whole guest is foreign mapped), and the write
/// that makes the last queue ready activates the device, after mapping the
/// rest of the guest memory.
pub open spec fn write_queue_ready(s: MmioState) -> (MmioState, Result<Action, Error>) {
    let sel = s.queue_sel;
    let q = s.vq[sel as int];
    if desc_addr(q) == 0 || avail_addr(q) == 0 || used_addr(q) == 0 {
        (s, Err(Error::InvalidQueueAddr(sel)))
    } else if !valid_queue_size(q.size) {
        (s, Err(Error::InvalidQueueSize(sel)))
    } else if q.ready == 1 {
        (s, Ok(Action::Nothing))
    } else {
        let vq2 = s.vq.update(sel as int, VirtQueue { ready: 1, ..q });
        let grant = !s.foreign_mapping;
        let rings = if grant {
            ring_regions(q.size as nat, desc_addr(q), avail_addr(q), used_addr(q))
        } else {
            seq![]
        };
        let regions2 = insert_all_by_addr(s.regions, rings);
        if !s.activated && ready_count(vq2) == vq2.len() {
            let rest = if grant { remaining_regions(regions2, s.guest_size) } else { seq![] };
            (
                MmioState {
                    vq: vq2,
                    regions: insert_all_by_addr(regions2, rest),
                    activated: true,
                    ..s
                },
                Ok(Action::Activate(rings + rest, queue_setups(vq2))),
            )
        } else {
            (MmioState { vq: vq2, regions: regions2, ..s }, Ok(Action::MapRegions(rings)))
        }
    }
}

/// Largest number of entries of a virtqueue.
pub const MAX_QUEUE_SIZE: u32 = 32768;

/// A virtqueue size: a power of two, at most `MAX_QUEUE_SIZE`.
pub open spec fn valid_queue_size(n: u32) -> bool {
    n != 0 && n <= MAX_QUEUE_SIZE && n & ((n - 1) as u32) == 0
}

/// The halves of the ring addresses of the selected queue.
pub open spec fn ring_addr_reg(offset: u64) -> bool {
    offset == VIRTIO_MMIO_QUEUE_DESC_LOW || offset == VIRTIO_MMIO_QUEUE_DESC_HIGH || offset
        == VIRTIO_MMIO_QUEUE_AVAIL_LOW || offset == VIRTIO_MMIO_QUEUE_AVAIL_HIGH || offset
        == VIRTIO_MMIO_QUEUE_USED_LOW || offset == VIRTIO_MMIO_QUEUE_USED_HIGH
}

/// The driver accepted version 1: ring addresses may be set from then on.
pub open spec fn version_1_accepted(s: MmioState) -> bool {
    s.driver_features & 0x1_0000_0000u64 != 0
}

/// What a write of `data` to the register at `offset` does.
pub open spec fn write_reg(s: MmioState, offset: u64, data: u64) -> (MmioState, Result<Action, Error>) {
    let sel = s.queue_sel;
    let q = s.vq[sel as int];
    let queue_ok = (sel as int) < s.vq.len();
    let v = data as u32;
    if offset == VIRTIO_MMIO_DEVICE_FEATURES_SEL {
        (MmioState { device_features_sel: v, ..s }, Ok(Action::Nothing))
    } else if offset == VIRTIO_MMIO_DRIVER_FEATURES_SEL {
        (MmioState { driver_features_sel: v, ..s }, Ok(Action::Nothing))
    } else if offset == VIRTIO_MMIO_QUEUE_SEL {
        (MmioState { queue_sel: v, ..s }, Ok(Action::Nothing))
    } else if offset == VIRTIO_MMIO_STATUS {
        (MmioState { status: v, ..s }, Ok(Action::Nothing))
    } else if offset == VIRTIO_MMIO_INTERRUPT_ACK {
        (MmioState { interrupt_state: s.interrupt_state & !v, ..s }, Ok(Action::Nothing))
    } else if offset == VIRTIO_MMIO_DRIVER_FEATURES {
        write_driver_features(s, data)
    } else if offset == VIRTIO_MMIO_QUEUE_NOTIFY {
        if data < s.vq.len() {
            (s, Ok(Action::Kick(data as usize)))
        } else {
            (s, Err(Error::InvalidMmioAddr(Access::Write, offset)))
        }
    } else if offset == VIRTIO_MMIO_QUEUE_NUM || offset == VIRTIO_MMIO_QUEUE_READY
        || offset == VIRTIO_MMIO_QUEUE_DESC_LOW || offset == VIRTIO_MMIO_QUEUE_DESC_HIGH
        || offset == VIRTIO_MMIO_QUEUE_AVAIL_LOW || offset == VIRTIO_MMIO_QUEUE_AVAIL_HIGH
        || offset == VIRTIO_MMIO_QUEUE_USED_LOW || offset == VIRTIO_MMIO_QUEUE_USED_HIGH {
        if ring_addr_reg(offset) && !version_1_accepted(s) {
            (s, Err(Error::MmioLegacyNotSupported))
        } else if !queue_ok {
            (s, Err(Error::InvalidQueueSel(sel)))
        } else if offset == VIRTIO_MMIO_QUEUE_NUM {
            (with_queue(s, VirtQueue { size: v, ..q }), Ok(Action::Nothing))
        } else if offset == VIRTIO_MMIO_QUEUE_DESC_LOW {
            (with_queue(s, VirtQueue { desc_lo: v, ..q }), Ok(Action::Nothing))
        } else if offset == VIRTIO_MMIO_QUEUE_DESC_HIGH {
            (with_queue(s, VirtQueue { desc_hi: v, ..q }), Ok(Action::Nothing))
        } else if offset == VIRTIO_MMIO_QUEUE_AVAIL_LOW {
            (with_queue(s, VirtQueue { avail_lo: v, ..q }), Ok(Action::Nothing))
        } else if offset == VIRTIO_MMIO_QUEUE_AVAIL_HIGH {
            (with_queue(s, VirtQueue { avail_hi: v, ..q }), Ok(Action::Nothing))
        } else if offset == VIRTIO_MMIO_QUEUE_USED_LOW {
            (with_queue(s, VirtQueue { used_lo: v, ..q }), Ok(Action::Nothing))
        } else if offset == VIRTIO_MMIO_QUEUE_USED_HIGH {
            (with_queue(s, VirtQueue { used_hi: v, ..q }), Ok(Action::Nothing))
        } else if data == 1 {
            write_queue_ready(s)
        } else {
            (with_queue(s, VirtQueue { ready: 0, ..q }), Ok(Action::ResetQueue(sel as usize)))
        }
    } else if read_only_reg(offset) {
        (s, Err(Error::InvalidMmioDir(IOREQ_WRITE)))
    } else {
        (s, Err(Error::InvalidMmioAddr(Access::Write, offset)))
    }
}

pub open spec fn access_of(dir: u8) -> Access {
    if dir == IOREQ_READ { Access::Read } else { Access::Write }
}

/// What servicing the request `r`, which falls in the device's window, does
/// to the transport and to the request.
pub open spec fn handle_ioreq(s: MmioState, r: Ioreq) -> (MmioState, Ioreq, Result<Action, Error>) {
    let offset = (r.addr - s.addr) as u64;
    if r.dir != IOREQ_READ && r.dir != IOREQ_WRITE {
        (s, r, Err(Error::InvalidMmioDir(r.dir)))
    } else if offset >= VIRTIO_MMIO_CONFIG {
        let cfg = (offset - VIRTIO_MMIO_CONFIG) as u64;
        if r.dir == IOREQ_READ {
            (s, r, Ok(Action::ConfigRead(cfg)))
        } else {
            (s, r, Ok(Action::ConfigWrite(cfg)))
        }
    } else if r.dir == IOREQ_READ {
        match read_reg(s, offset) {
            Ok(v) => (s, Ioreq { data: v as u64, ..r }, Ok(Action::Nothing)),
            Err(e) => (s, r, Err(e)),
        }
    } else {
        let (s2, a) = write_reg(s, offset, r.data);
        (s2, r, a)
    }
}

impl XenMmio {
    /// The transport's own invariant: the mapped regions stay sorted by start
    /// address.
    pub open spec fn wf(&self) -> bool {
        sorted_by_addr(self.regions@)
    }

    /// A transport for a device at `addr` whose backend offers one queue of
    /// each of `queue_max_sizes`. With the foreign mapping, the whole guest
    /// memory is one region from the start: mapping it later takes long
    /// enough for the guest to time out.
    pub fn new(
        queue_max_sizes: &Vec<u16>,
        addr: u64,
        foreign_mapping: bool,
        guest_size: u64,
        device_type: u32,
        device_features: u64,
    ) -> (r: XenMmio)
        ensures
            r.wf(),
            r@ == initial_state(
                queue_max_sizes@,
                addr,
                foreign_mapping,
                guest_size,
                device_type,
                device_features,
            ),
    {
        let mut vq: Vec<VirtQueue> = Vec::new();
        let mut i: usize = 0;
        while i < queue_max_sizes.len()
            invariant
                i <= queue_max_sizes.len(),
                vq@ =~= Seq::new(i as nat, |k: int| fresh_queue(queue_max_sizes@[k])),
            decreases queue_max_sizes.len() - i,
        {
            vq.push(
                VirtQueue {
                    ready: 0,
                    size: 0,
                    size_max: queue_max_sizes[i] as u32,
                    desc_lo: 0,
                    desc_hi: 0,
                    avail_lo: 0,
                    avail_hi: 0,
                    used_lo: 0,
                    used_hi: 0,
                },
            );
            i = i + 1;
        }
        let mut regions: Vec<Region> = Vec::new();
        if foreign_mapping {
            regions.push(foreign_region(guest_size));
        }
        let r = XenMmio {
            addr,
            device_type,
            device_features,
            status: 0,
            queue_sel: 0,
            device_features_sel: 0,
            driver_features: 0,
            driver_features_sel: 0,
            interrupt_state: 0,
            vq,
            regions,
            foreign_mapping,
            guest_size,
            activated: false,
        };
        assert(r@.regions =~= initial_state(queue_max_sizes@, addr, foreign_mapping, guest_size, device_type, device_features).regions);
        r
    }

    /// A 64-bit address from the two halves the driver wrote.
    fn queue_addr(hi: u32, lo: u32) -> (r: u64)
        ensures
            r == addr64(hi, lo),
    {
        ((hi as u64) << 32u64) | (lo as u64)
    }

    fn is_read_only(offset: u64) -> (r: bool)
        ensures
            r == read_only_reg(offset),
    {
        offset == VIRTIO_MMIO_MAGIC_VALUE || offset == VIRTIO_MMIO_VERSION || offset
            == VIRTIO_MMIO_DEVICE_ID || offset == VIRTIO_MMIO_VENDOR_ID || offset
            == VIRTIO_MMIO_INTERRUPT_STATUS || offset == VIRTIO_MMIO_DEVICE_FEATURES || offset
            == VIRTIO_MMIO_QUEUE_NUM_MAX || offset == VIRTIO_MMIO_CONFIG_GENERATION
    }

    fn is_write_only(offset: u64) -> (r: bool)
        ensures
            r == write_only_reg(offset),
    {
        offset == VIRTIO_MMIO_DEVICE_FEATURES_SEL || offset == VIRTIO_MMIO_DRIVER_FEATURES_SEL
            || offset == VIRTIO_MMIO_DRIVER_FEATURES || offset == VIRTIO_MMIO_QUEUE_SEL || offset
            == VIRTIO_MMIO_QUEUE_NUM || offset == VIRTIO_MMIO_QUEUE_NOTIFY || offset
            == VIRTIO_MMIO_INTERRUPT_ACK
    }

    /// Value of the register at `offset` (below the configuration space).
    pub fn io_read(&self, offset: u64) -> (r: Result<u32, Error>)
        ensures
            r == read_reg(self@, offset),
    {
        let sel = self.queue_sel;
        if offset == VIRTIO_MMIO_MAGIC_VALUE {
            Ok(MMIO_MAGIC)
        } else if offset == VIRTIO_MMIO_VERSION {
            Ok(MMIO_VERSION)
        } else if offset == VIRTIO_MMIO_DEVICE_ID {
            Ok(self.device_type)
        } else if offset == VIRTIO_MMIO_VENDOR_ID {
            Ok(MMIO_VENDOR_ID)
        } else if offset == VIRTIO_MMIO_STATUS {
            Ok(self.status)
        } else if offset == VIRTIO_MMIO_INTERRUPT_STATUS {
            Ok(self.interrupt_state)
        } else if offset == VIRTIO_MMIO_DEVICE_FEATURES {
            let features = self.device_features | TRANSPORT_FEATURES;
            if self.device_features_sel == 0 {
                Ok(features as u32)
            } else if self.device_features_sel == 1 {
                Ok((features >> 32u64) as u32)
            } else {
                Err(Error::InvalidFeatureSel(self.device_features_sel))
            }
        } else if offset == VIRTIO_MMIO_CONFIG_GENERATION {
            Ok(0)
        } else if offset == VIRTIO_MMIO_QUEUE_NUM_MAX || offset == VIRTIO_MMIO_QUEUE_READY
            || offset == VIRTIO_MMIO_QUEUE_DESC_LOW || offset == VIRTIO_MMIO_QUEUE_DESC_HIGH
            || offset == VIRTIO_MMIO_QUEUE_AVAIL_LOW || offset == VIRTIO_MMIO_QUEUE_AVAIL_HIGH
            || offset == VIRTIO_MMIO_QUEUE_USED_LOW || offset == VIRTIO_MMIO_QUEUE_USED_HIGH {
            if sel as usize >= self.vq.len() {
                return Err(Error::InvalidQueueSel(sel));
            }
            let q = &self.vq[sel as usize];
            if offset == VIRTIO_MMIO_QUEUE_NUM_MAX {
                Ok(q.size_max)
            } else if offset == VIRTIO_MMIO_QUEUE_READY {
                Ok(q.ready)
            } else if offset == VIRTIO_MMIO_QUEUE_DESC_LOW {
                Ok(q.desc_lo)
            } else if offset == VIRTIO_MMIO_QUEUE_DESC_HIGH {
                Ok(q.desc_hi)
            } else if offset == VIRTIO_MMIO_QUEUE_AVAIL_LOW {
                Ok(q.avail_lo)
            } else if offset == VIRTIO_MMIO_QUEUE_AVAIL_HIGH {
                Ok(q.avail_hi)
            } else if offset == VIRTIO_MMIO_QUEUE_USED_LOW {
                Ok(q.used_lo)
            } else {
                Ok(q.used_hi)
            }
        } else if Self::is_write_only(offset) {
            Err(Error::InvalidMmioDir(IOREQ_READ))
        } else {
            Err(Error::InvalidMmioAddr(Access::Read, offset))
        }
    }

    fn write_driver_features(&mut self, data: u64) -> (r: Result<MmioAction, Error>)
        ensures
            (final(self)@, result_view(r)) == write_driver_features(old(self)@, data),
            final(self).regions@ == old(self).regions@,
    {
        let sel = self.driver_features_sel;
        if sel > 1 {
            return Err(Error::InvalidFeatureSel(sel));
        }
        let half = (data as u32) as u64;
        if sel == 0 {
            self.driver_features = self.driver_features | half;
            // The driver writes the high half first: the value is complete.
            Ok(MmioAction::NegotiateFeatures(self.driver_features))
        } else {
            self.driver_features = self.driver_features | (half << 32u64);
            if self.driver_features & 0x1_0000_0000u64 == 0 {
                Err(Error::MmioLegacyNotSupported)
            } else {
                Ok(MmioAction::Nothing)
            }
        }
    }

    /// Number of ready queues.
    fn count_ready(&self) -> (n: usize)
        ensures
            n == ready_count(self.vq@),
    {
        let mut n: usize = 0;
        let mut i: usize = 0;
        while i < self.vq.len()
            invariant
                i <= self.vq.len(),
                n == ready_prefix(self.vq@, i as nat),
                n <= i,
            decreases self.vq.len() - i,
        {
            if self.vq[i].ready == 1 {
                n = n + 1;
            }
            i = i + 1;
        }
        n
    }

    /// Every queue as handed to the backend.
    fn setups(&self) -> (r: Vec<QueueSetup>)
        ensures
            r@ == queue_setups(self.vq@),
    {
        let mut r: Vec<QueueSetup> = Vec::new();
        let mut i: usize = 0;
        while i < self.vq.len()
            invariant
                i <= self.vq.len(),
                r@ =~= Seq::new(i as nat, |k: int| queue_setup(self.vq@, k)),
            decreases self.vq.len() - i,
        {
            let q = &self.vq[i];
            r.push(
                QueueSetup {
                    index: i,
                    size: q.size,
                    desc: Self::queue_addr(q.desc_hi, q.desc_lo),
                    avail: Self::queue_addr(q.avail_hi, q.avail_lo),
                    used: Self::queue_addr(q.used_hi, q.used_lo),
                },
            );
            i = i + 1;
        }
        r
    }

    /// Makes the selected queue ready, maps its rings and, once every queue
    /// is ready, the rest of the guest memory, and activates the device.
    fn init_vq(&mut self) -> (r: Result<MmioAction, Error>)
        requires
            old(self).wf(),
            (old(self).queue_sel as int) < old(self).vq@.len(),
        ensures
            final(self).wf(),
            (final(self)@, result_view(r)) == write_queue_ready(old(self)@),
    {
        let sel = self.queue_sel as usize;
        let q = self.vq[sel];
        let desc = Self::queue_addr(q.desc_hi, q.desc_lo);
        let avail = Self::queue_addr(q.avail_hi, q.avail_lo);
        let used = Self::queue_addr(q.used_hi, q.used_lo);
        if desc == 0 || avail == 0 || used == 0 {
            return Err(Error::InvalidQueueAddr(self.queue_sel));
        }
        if !(q.size != 0 && q.size <= MAX_QUEUE_SIZE && q.size & (q.size - 1) == 0) {
            return Err(Error::InvalidQueueSize(self.queue_sel));
        }
        if q.ready == 1 {
            return Ok(MmioAction::Nothing);
        }
        self.vq.set(sel, VirtQueue { ready: 1, ..q });
        let grant = !self.foreign_mapping;
        let mut new_regions: Vec<Region> = if grant {
            queue_ring_regions(q.size, desc, avail, used)
        } else {
            Vec::new()
        };
        insert_regions(&mut self.regions, &new_regions);
        if !self.activated && self.count_ready() == self.vq.len() {
            let mut rest: Vec<Region> = if grant {
                remaining_guest_regions(&self.regions, self.guest_size)
            } else {
                Vec::new()
            };
            insert_regions(&mut self.regions, &rest);
            self.activated = true;
            let ghost rings = new_regions@;
            new_regions.append(&mut rest);
            assert(new_regions@ =~= rings + if grant { remaining_regions(insert_all_by_addr(old(self).regions@, rings), self.guest_size) } else { seq![] });
            Ok(MmioAction::Activate(new_regions, self.setups()))
        } else {
            Ok(MmioAction::MapRegions(new_regions))
        }
    }

    /// Changes the selected queue's registers to `q`.
    fn set_queue(&mut self, q: VirtQueue)
        requires
            (old(self).queue_sel as int) < old(self).vq@.len(),
        ensures
            final(self)@ == with_queue(old(self)@, q),
    {
        let sel = self.queue_sel as usize;
        self.vq.set(sel, q);
    }

    /// Carries out a write of `data` to the register at `offset` (below the
    /// configuration space).
    pub fn io_write(&mut self, offset: u64, data: u64) -> (r: Result<MmioAction, Error>)
        requires
            old(self).wf(),
        ensures
            final(self).wf(),
            (final(self)@, result_view(r)) == write_reg(old(self)@, offset, data),
    {
        let v = data as u32;
        if offset == VIRTIO_MMIO_DEVICE_FEATURES_SEL {
            self.device_features_sel = v;
            Ok(MmioAction::Nothing)
        } else if offset == VIRTIO_MMIO_DRIVER_FEATURES_SEL {
            self.driver_features_sel = v;
            Ok(MmioAction::Nothing)
        } else if offset == VIRTIO_MMIO_QUEUE_SEL {
            self.queue_sel = v;
            Ok(MmioAction::Nothing)
        } else if offset == VIRTIO_MMIO_STATUS {
            self.status = v;
            Ok(MmioAction::Nothing)
        } else if offset == VIRTIO_MMIO_INTERRUPT_ACK {
            self.interrupt_state = self.interrupt_state & !v;
            Ok(MmioAction::Nothing)
        } else if offset == VIRTIO_MMIO_DRIVER_FEATURES {
            self.write_driver_features(data)
        } else if offset == VIRTIO_MMIO_QUEUE_NOTIFY {
            if data < self.vq.len() as u64 {
                Ok(MmioAction::Kick(data as usize))
            } else {
                Err(Error::InvalidMmioAddr(Access::Write, offset))
            }
        } else if offset == VIRTIO_MMIO_QUEUE_NUM || offset == VIRTIO_MMIO_QUEUE_READY
            || offset == VIRTIO_MMIO_QUEUE_DESC_LOW || offset == VIRTIO_MMIO_QUEUE_DESC_HIGH
            || offset == VIRTIO_MMIO_QUEUE_AVAIL_LOW || offset == VIRTIO_MMIO_QUEUE_AVAIL_HIGH
            || offset == VIRTIO_MMIO_QUEUE_USED_LOW || offset == VIRTIO_MMIO_QUEUE_USED_HIGH {
            let ring = offset == VIRTIO_MMIO_QUEUE_DESC_LOW || offset == VIRTIO_MMIO_QUEUE_DESC_HIGH
                || offset == VIRTIO_MMIO_QUEUE_AVAIL_LOW || offset == VIRTIO_MMIO_QUEUE_AVAIL_HIGH
                || offset == VIRTIO_MMIO_QUEUE_USED_LOW || offset == VIRTIO_MMIO_QUEUE_USED_HIGH;
            if ring && self.driver_features & 0x1_0000_0000u64 == 0 {
                // Ring addresses are taken from version 1 drivers only.
                return Err(Error::MmioLegacyNotSupported);
            }
            let sel = self.queue_sel;
            if sel as usize >= self.vq.len() {
                return Err(Error::InvalidQueueSel(sel));
            }
            let q = self.vq[sel as usize];
            if offset == VIRTIO_MMIO_QUEUE_NUM {
                self.set_queue(VirtQueue { size: v, ..q });
            } else if offset == VIRTIO_MMIO_QUEUE_DESC_LOW {
                self.set_queue(VirtQueue { desc_lo: v, ..q });
            } else if offset == VIRTIO_MMIO_QUEUE_DESC_HIGH {
                self.set_queue(VirtQueue { desc_hi: v, ..q });
            } else if offset == VIRTIO_MMIO_QUEUE_AVAIL_LOW {
                self.set_queue(VirtQueue { avail_lo: v, ..q });
            } else if offset == VIRTIO_MMIO_QUEUE_AVAIL_HIGH {
                self.set_queue(VirtQueue { avail_hi: v, ..q });
            } else if offset == VIRTIO_MMIO_QUEUE_USED_LOW {
                self.set_queue(VirtQueue { used_lo: v, ..q });
            } else if offset == VIRTIO_MMIO_QUEUE_USED_HIGH {
                self.set_queue(VirtQueue { used_hi: v, ..q });
            } else if data == 1 {
                return self.init_vq();
            } else {
                // Tears the queue down; it is set up again by a later write of 1.
                self.set_queue(VirtQueue { ready: 0, ..q });
                return Ok(MmioAction::ResetQueue(sel as usize));
            }
            Ok(MmioAction::Nothing)
        } else if Self::is_read_only(offset) {
            Err(Error::InvalidMmioDir(IOREQ_WRITE))
        } else {
            Err(Error::InvalidMmioAddr(Access::Write, offset))
        }
    }

    /// Services the request `req`, whose address falls in the device's
    /// window: a read fills in the request's data, a write changes the
    /// registers. Accesses to the configuration space are returned for the
    /// backend to serve.
    pub fn io_event(&mut self, req: &mut Ioreq) -> (r: Result<MmioAction, Error>)
        requires
            old(self).wf(),
            old(self).addr <= old(req).addr,
        ensures
            final(self).wf(),
            (final(self)@, *final(req), result_view(r)) == handle_ioreq(old(self)@, *old(req)),
    {
        let offset = req.addr - self.addr;
        if req.dir != IOREQ_READ && req.dir != IOREQ_WRITE {
            Err(Error::InvalidMmioDir(req.dir))
        } else if offset >= VIRTIO_MMIO_CONFIG {
            let cfg = offset - VIRTIO_MMIO_CONFIG;
            if req.dir == IOREQ_READ {
                Ok(MmioAction::ConfigRead(cfg))
            } else {
                Ok(MmioAction::ConfigWrite(cfg))
            }
        } else if req.dir == IOREQ_READ {
            match self.io_read(offset) {
                Ok(v) => {
                    req.data = v as u64;
                    Ok(MmioAction::Nothing)
                },
                Err(e) => Err(e),
            }
        } else {
            self.io_write(offset, req.data)
        }
    }

    /// Records that the backend raised the interrupts in `mask`.
    pub fn update_interrupt_state(&mut self, mask: u32)
        ensures
            final(self)@ == (MmioState { interrupt_state: old(self).interrupt_state | mask, ..old(self)@ }),
    {
        self.interrupt_state = self.interrupt_state | mask;
    }

    /// Whether the backend was activated.
    pub fn is_activated(&self) -> (r: bool)
        ensures
            r == self.activated,
    {
        self.activated
    }

    /// The regions mapped so far, sorted by start address.
    pub fn regions(&self) -> (r: &Vec<Region>)
        ensures
            r@ == self.regions@,
    {
        &self.regions
    }
}

// ---------------------------------------------------------------------------
// Properties of the register protocol.

/// The magic value, the version and the vendor id read as fixed constants in
/// every state of the transport, whatever was negotiated or set up before.
pub proof fn lemma_identity_registers(s: MmioState)
    ensures
        read_reg(s, VIRTIO_MMIO_MAGIC_VALUE) == Ok::<u32, Error>(MMIO_MAGIC),
        read_reg(s, VIRTIO_MMIO_VERSION) == Ok::<u32, Error>(MMIO_VERSION),
        read_reg(s, VIRTIO_MMIO_VENDOR_ID) == Ok::<u32, Error>(MMIO_VENDOR_ID),
{
}

/// Before any access, every register of a new transport with at least one
/// queue reads a defined value: the constants, the backend's device type and
/// queue size, and zero for everything the driver sets.
pub proof fn lemma_initial_reads(
    sizes: Seq<u16>,
    addr: u64,
    foreign_mapping: bool,
    guest_size: u64,
    device_type: u32,
    device_features: u64,
)
    requires
        sizes.len() > 0,
    ensures
        ({
            let s = initial_state(sizes, addr, foreign_mapping, guest_size, device_type, device_features);
            &&& read_reg(s, VIRTIO_MMIO_DEVICE_ID) == Ok::<u32, Error>(device_type)
            &&& read_reg(s, VIRTIO_MMIO_STATUS) == Ok::<u32, Error>(0)
            &&& read_reg(s, VIRTIO_MMIO_INTERRUPT_STATUS) == Ok::<u32, Error>(0)
            &&& read_reg(s, VIRTIO_MMIO_DEVICE_FEATURES) == Ok::<u32, Error>(
                (device_features | TRANSPORT_FEATURES) as u32,
            )
            &&& read_reg(s, VIRTIO_MMIO_CONFIG_GENERATION) == Ok::<u32, Error>(0)
            &&& read_reg(s, VIRTIO_MMIO_QUEUE_NUM_MAX) == Ok::<u32, Error>(sizes[0] as u32)
            &&& read_reg(s, VIRTIO_MMIO_QUEUE_READY) == Ok::<u32, Error>(0)
            &&& read_reg(s, VIRTIO_MMIO_QUEUE_DESC_LOW) == Ok::<u32, Error>(0)
            &&& read_reg(s, VIRTIO_MMIO_QUEUE_DESC_HIGH) == Ok::<u32, Error>(0)
            &&& read_reg(s, VIRTIO_MMIO_QUEUE_AVAIL_LOW) == Ok::<u32, Error>(0)
            &&& read_reg(s, VIRTIO_MMIO_QUEUE_AVAIL_HIGH) == Ok::<u32, Error>(0)
            &&& read_reg(s, VIRTIO_MMIO_QUEUE_USED_LOW) == Ok::<u32, Error>(0)
            &&& read_reg(s, VIRTIO_MMIO_QUEUE_USED_HIGH) == Ok::<u32, Error>(0)
        }),
{
}

/// Writing the high driver features word while version 1 is still clear,
/// and clear in the value written, is refused as a legacy driver.
pub proof fn lemma_legacy_driver_refused(s: MmioState, data: u64)
    requires
        s.driver_features_sel == 1,
        s.driver_features & 0x1_0000_0000u64 == 0,
        data & 1 == 0,
    ensures
        write_reg(s, VIRTIO_MMIO_DRIVER_FEATURES, data).1 == Err::<Action, Error>(
            Error::MmioLegacyNotSupported,
        ),
{
    let f = s.driver_features;
    let half = (data as u32) as u64;
    assert(half & 1 == 0) by (bit_vector)
        requires
            data & 1 == 0,
            half == (data as u32) as u64,
    ;
    assert((f | (half << 32u64)) & 0x1_0000_0000u64 == 0) by (bit_vector)
        requires
            f & 0x1_0000_0000u64 == 0,
            half & 1 == 0,
    ;
}

/// The feature handshake of a driver: select the high word, write it with
/// version 1, select the low word, write it. Only the last write asks for a
/// negotiation, and it asks with the two halves put together.
pub proof fn lemma_feature_negotiation(s: MmioState, hi: u32, lo: u32)
    requires
        s.driver_features == 0,
        hi & 1 == 1,
    ensures
        ({
            let (s1, a1) = write_reg(s, VIRTIO_MMIO_DRIVER_FEATURES_SEL, 1);
            let (s2, a2) = write_reg(s1, VIRTIO_MMIO_DRIVER_FEATURES, hi as u64);
            let (s3, a3) = write_reg(s2, VIRTIO_MMIO_DRIVER_FEATURES_SEL, 0);
            let (s4, a4) = write_reg(s3, VIRTIO_MMIO_DRIVER_FEATURES, lo as u64);
            &&& a1 == Ok::<Action, Error>(Action::Nothing)
            &&& a2 == Ok::<Action, Error>(Action::Nothing)
            &&& a3 == Ok::<Action, Error>(Action::Nothing)
            &&& a4 == Ok::<Action, Error>(
                Action::NegotiateFeatures(((hi as u64) << 32u64) | (lo as u64)),
            )
            &&& s4.driver_features == ((hi as u64) << 32u64) | (lo as u64)
        }),
{
    let h = hi as u64;
    let l = lo as u64;
    assert(((h as u32) as u64) == h) by (bit_vector)
        requires
            h == hi as u64,
    ;
    assert(((l as u32) as u64) == l) by (bit_vector)
        requires
            l == lo as u64,
    ;
    assert((0u64 | (h << 32u64)) & 0x1_0000_0000u64 != 0) by (bit_vector)
        requires
            h & 1 == 1,
            h == hi as u64,
    ;
    assert(((0u64 | (h << 32u64)) | l) == ((h << 32u64) | l)) by (bit_vector);
}

/// A queue whose descriptor, available or used ring address is still zero
/// is refused when made ready: no state changes, so the number of ready
/// queues stays as it was.
pub proof fn lemma_zero_ring_address_refused(s: MmioState)
    requires
        (s.queue_sel as int) < s.vq.len(),
        desc_addr(s.vq[s.queue_sel as int]) == 0 || avail_addr(s.vq[s.queue_sel as int]) == 0
            || used_addr(s.vq[s.queue_sel as int]) == 0,
    ensures
        write_reg(s, VIRTIO_MMIO_QUEUE_READY, 1) == (s, Err::<Action, Error>(
            Error::InvalidQueueAddr(s.queue_sel),
        )),
{
}

/// Before activation, making a queue with valid rings ready activates the
/// device exactly when every advertised queue is then ready.
pub proof fn lemma_activation_on_last_queue(s: MmioState)
    requires
        !s.activated,
        (s.queue_sel as int) < s.vq.len(),
        s.vq[s.queue_sel as int].ready != 1,
        desc_addr(s.vq[s.queue_sel as int]) != 0,
        avail_addr(s.vq[s.queue_sel as int]) != 0,
        used_addr(s.vq[s.queue_sel as int]) != 0,
        valid_queue_size(s.vq[s.queue_sel as int].size),
    ensures
        ({
            let (s2, a) = write_reg(s, VIRTIO_MMIO_QUEUE_READY, 1);
            &&& s2.vq[s.queue_sel as int].ready == 1
            &&& s2.activated == (ready_count(s2.vq) == s.vq.len())
            &&& (a matches Ok(Action::Activate(_, q)) <==> s2.activated)
            &&& (s2.activated ==> (a matches Ok(Action::Activate(_, q)) && q == queue_setups(s2.vq)))
        }),
{
}

/// Once the device is activated, no register write activates it again, and
/// it stays activated.
pub proof fn lemma_activation_once(s: MmioState, offset: u64, data: u64)
    requires
        s.activated,
    ensures
        write_reg(s, offset, data).0.activated,
        !(write_reg(s, offset, data).1 matches Ok(Action::Activate(_, _))),
{
}

/// Kicking a queue that does not exist is refused as an invalid address and
/// leaves the transport as it was.
pub proof fn lemma_notify_unknown_queue(s: MmioState, data: u64)
    requires
        data >= s.vq.len(),
    ensures
        write_reg(s, VIRTIO_MMIO_QUEUE_NOTIFY, data) == (s, Err::<Action, Error>(
            Error::InvalidMmioAddr(Access::Write, VIRTIO_MMIO_QUEUE_NOTIFY),
        )),
{
}

/// Until the driver has accepted version 1, no ring address is taken: the
/// write is refused as a legacy driver and changes nothing.
pub proof fn lemma_ring_address_needs_version_1(s: MmioState, offset: u64, data: u64)
    requires
        ring_addr_reg(offset),
        s.driver_features & 0x1_0000_0000u64 == 0,
    ensures
        write_reg(s, offset, data) == (s, Err::<Action, Error>(Error::MmioLegacyNotSupported)),
{
}

/// Making a queue ready, without the foreign mapping, first maps its three
/// rings, before or after activation.
pub proof fn lemma_rings_mapped_when_ready(s: MmioState)
    requires
        !s.foreign_mapping,
        (s.queue_sel as int) < s.vq.len(),
        s.vq[s.queue_sel as int].ready != 1,
        desc_addr(s.vq[s.queue_sel as int]) != 0,
        avail_addr(s.vq[s.queue_sel as int]) != 0,
        used_addr(s.vq[s.queue_sel as int]) != 0,
        valid_queue_size(s.vq[s.queue_sel as int].size),
    ensures
        ({
            let q = s.vq[s.queue_sel as int];
            let rings = ring_regions(q.size as nat, desc_addr(q), avail_addr(q), used_addr(q));
            match write_reg(s, VIRTIO_MMIO_QUEUE_READY, 1).1 {
                Ok(Action::MapRegions(m)) => m == rings,
                Ok(Action::Activate(m, _)) => m.subrange(0, rings.len() as int) == rings,
                _ => false,
            }
        }),
{
    let q = s.vq[s.queue_sel as int];
    let rings = ring_regions(q.size as nat, desc_addr(q), avail_addr(q), used_addr(q));
    match write_reg(s, VIRTIO_MMIO_QUEUE_READY, 1).1 {
        Ok(Action::Activate(m, _)) => {
            assert(m.subrange(0, rings.len() as int) =~= rings);
        },
        _ => {},
    }
}

/// A queue that is already ready, with valid rings and size, stays as it is
/// when made ready again: its rings are not mapped twice.
pub proof fn lemma_ready_queue_unchanged(s: MmioState)
    requires
        (s.queue_sel as int) < s.vq.len(),
        s.vq[s.queue_sel as int].ready == 1,
        desc_addr(s.vq[s.queue_sel as int]) != 0,
        avail_addr(s.vq[s.queue_sel as int]) != 0,
        used_addr(s.vq[s.queue_sel as int]) != 0,
        valid_queue_size(s.vq[s.queue_sel as int].size),
    ensures
        write_reg(s, VIRTIO_MMIO_QUEUE_READY, 1) == (s, Ok::<Action, Error>(Action::Nothing)),
{
}

/// A queue whose size is zero, above `MAX_QUEUE_SIZE` or not a power of two
/// is refused when made ready, and nothing changes.
pub proof fn lemma_bad_queue_size_refused(s: MmioState)
    requires
        (s.queue_sel as int) < s.vq.len(),
        desc_addr(s.vq[s.queue_sel as int]) != 0,
        avail_addr(s.vq[s.queue_sel as int]) != 0,
        used_addr(s.vq[s.queue_sel as int]) != 0,
        !valid_queue_size(s.vq[s.queue_sel as int].size),
    ensures
        write_reg(s, VIRTIO_MMIO_QUEUE_READY, 1) == (s, Err::<Action, Error>(
            Error::InvalidQueueSize(s.queue_sel),
        )),
{
}

} // verus!
