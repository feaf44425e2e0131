//! The I/O request record that the hypervisor shares with the device model,
//! and the state changes that servicing one makes to it.

use vstd::prelude::*;
use crate::regs::{STATE_IOREQ_INPROCESS, STATE_IOREQ_READY, STATE_IORESP_READY};

verus! {

/// The fields of a hypervisor I/O request that servicing reads or changes.
#[derive(Debug, Clone, Copy, PartialEq, Eq, Structural)]
pub struct Ioreq {
    /// Guest physical address of the access.
    pub addr: u64,
    /// Value written, or value to return for a read.
    pub data: u64,
    /// Width of the access in bytes.
    pub size: u32,
    /// `STATE_IOREQ_*` or `STATE_IORESP_READY`.
    pub state: u8,
    /// `IOREQ_READ` or `IOREQ_WRITE`.
    pub dir: u8,
    /// `IOREQ_TYPE_*`.
    pub type_: u8,
}

/// The record as it stands after `ioreq_begin`.
pub open spec fn begun(r: Ioreq) -> Ioreq {
    if r.state == STATE_IOREQ_READY {
        Ioreq { state: STATE_IOREQ_INPROCESS, ..r }
    } else {
        r
    }
}

/// The record as it stands after `ioreq_finish`.
pub open spec fn finished(r: Ioreq) -> Ioreq {
    Ioreq { state: STATE_IORESP_READY, ..r }
}

/// Claims a request for servicing: a record in the ready state moves to the
/// in-process state and `true` is returned; any other record is a spurious
/// wakeup and is left as it is.
pub fn ioreq_begin(r: &mut Ioreq) -> (claimed: bool)
    ensures
        claimed == (old(r).state == STATE_IOREQ_READY),
        *final(r) == begun(*old(r)),
{
    if r.state == STATE_IOREQ_READY {
        r.state = STATE_IOREQ_INPROCESS;
        true
    } else {
        false
    }
}

/// Publishes the response of a request that is being serviced.
pub fn ioreq_finish(r: &mut Ioreq)
    requires
        old(r).state == STATE_IOREQ_INPROCESS,
    ensures
        *final(r) == finished(*old(r)),
{
    r.state = STATE_IORESP_READY;
}

} // verus!
