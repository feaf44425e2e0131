//! Virtio-mmio transport emulation for Xen guests whose virtio devices are
//! implemented by vhost-user backends.
//!
//! The library holds the register protocol, the queue setup and activation
//! handshake, the guest memory region planning, the I/O request dispatch and
//! the small parsers of the Xen store protocol. Everything that talks to the
//! hypervisor or to a backend process lives with the caller, which performs
//! the actions that the library returns.

pub mod error;
pub mod guest;
pub mod guests;
pub mod ioreq;
pub mod layout;
pub mod mmio;
pub mod regs;
pub mod registry;
pub mod xs;
