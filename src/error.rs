//! Errors of the transport, of the dispatcher and of the store parsers.

use vstd::prelude::*;

verus! {

/// Which kind of register access an error is about.
#[derive(Debug, Clone, Copy, PartialEq, Eq, Structural)]
pub enum Access {
    Read,
    Write,
}

#[derive(Debug, Clone, PartialEq, Eq)]
pub enum Error {
    /// The hypervisor's domain information did not describe the domain asked
    /// for: number of records, domain asked for, domain found.
    InvalidDomainInfo(usize, u16, usize),
    /// No register at this offset for this kind of access.
    InvalidMmioAddr(Access, u64),
    /// The guest did not accept the version-1 feature.
    MmioLegacyNotSupported,
    /// A feature word selector above 1.
    InvalidFeatureSel(u32),
    /// An access that is neither a read nor a write.
    InvalidMmioDir(u8),
    /// The selected queue does not exist.
    InvalidQueueSel(u32),
    /// A queue was made ready while one of its ring addresses was zero.
    InvalidQueueAddr(u32),
    /// A queue was made ready with a size that is not a virtqueue size.
    InvalidQueueSize(u32),
    /// A device window that overlaps the window of another device.
    OverlappingWindow(u64),
    /// No device with this identifier.
    DeviceNotFound(u32),
    /// A device with this identifier is already served.
    DeviceExists(u32),
    /// A device of a type that has no entry in the device table.
    XenDevNotSupported(String),
    /// A store value that is not a number.
    ParseFailure,
    /// A bus state other than the one the handshake expects.
    XBInvalidState,
}

impl Error {
    /// Guest protocol violations: a legacy driver, an invalid feature word
    /// selector, a queue made ready with a zero ring address or an invalid
    /// size. They are fatal
    /// to the device, which is torn down; other errors leave it in service.
    pub open spec fn protocol_violation(&self) -> bool {
        match self {
            Error::MmioLegacyNotSupported => true,
            Error::InvalidFeatureSel(_) => true,
            Error::InvalidQueueAddr(_) => true,
            Error::InvalidQueueSize(_) => true,
            _ => false,
        }
    }

    /// Whether the error is fatal to the device it came from.
    pub fn is_protocol_violation(&self) -> (r: bool)
        ensures
            r == self.protocol_violation(),
    {
        match self {
            Error::MmioLegacyNotSupported => true,
            Error::InvalidFeatureSel(_) => true,
            Error::InvalidQueueAddr(_) => true,
            Error::InvalidQueueSize(_) => true,
            _ => false,
        }
    }
}

} // verus!
