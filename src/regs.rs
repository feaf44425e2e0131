//! Register offsets and protocol constants of the virtio-mmio transport and
//! of the Xen I/O request interface.

use vstd::prelude::*;

verus! {

/// Size of the address window that one device claims in guest memory.
pub const VIRTIO_MMIO_IO_SIZE: u64 = 0x200;

pub const VIRTIO_MMIO_MAGIC_VALUE: u64 = 0x000;
pub const VIRTIO_MMIO_VERSION: u64 = 0x004;
pub const VIRTIO_MMIO_DEVICE_ID: u64 = 0x008;
pub const VIRTIO_MMIO_VENDOR_ID: u64 = 0x00c;
pub const VIRTIO_MMIO_DEVICE_FEATURES: u64 = 0x010;
pub const VIRTIO_MMIO_DEVICE_FEATURES_SEL: u64 = 0x014;
pub const VIRTIO_MMIO_DRIVER_FEATURES: u64 = 0x020;
pub const VIRTIO_MMIO_DRIVER_FEATURES_SEL: u64 = 0x024;
pub const VIRTIO_MMIO_QUEUE_SEL: u64 = 0x030;
pub const VIRTIO_MMIO_QUEUE_NUM_MAX: u64 = 0x034;
pub const VIRTIO_MMIO_QUEUE_NUM: u64 = 0x038;
pub const VIRTIO_MMIO_QUEUE_READY: u64 = 0x044;
pub const VIRTIO_MMIO_QUEUE_NOTIFY: u64 = 0x050;
pub const VIRTIO_MMIO_INTERRUPT_STATUS: u64 = 0x060;
pub const VIRTIO_MMIO_INTERRUPT_ACK: u64 = 0x064;
pub const VIRTIO_MMIO_STATUS: u64 = 0x070;
pub const VIRTIO_MMIO_QUEUE_DESC_LOW: u64 = 0x080;
pub const VIRTIO_MMIO_QUEUE_DESC_HIGH: u64 = 0x084;
pub const VIRTIO_MMIO_QUEUE_AVAIL_LOW: u64 = 0x090;
pub const VIRTIO_MMIO_QUEUE_AVAIL_HIGH: u64 = 0x094;
pub const VIRTIO_MMIO_QUEUE_USED_LOW: u64 = 0x0a0;
pub const VIRTIO_MMIO_QUEUE_USED_HIGH: u64 = 0x0a4;
pub const VIRTIO_MMIO_CONFIG_GENERATION: u64 = 0x0fc;

/// Offset at which the device-specific configuration space starts.
pub const VIRTIO_MMIO_CONFIG: u64 = 0x100;

/// The bytes "virt" read as a little-endian word.
pub const MMIO_MAGIC: u32 = 0x7472_6976;
/// Transport version: 2 is the non-legacy virtio-mmio layout.
pub const MMIO_VERSION: u32 = 2;
pub const MMIO_VENDOR_ID: u32 = 0x4d56_4b4c;

/// Feature bit numbers.
pub const VIRTIO_F_VERSION_1: u64 = 32;
pub const VIRTIO_F_IOMMU_PLATFORM: u64 = 33;

/// Feature bits that the transport always offers on top of the backend's:
/// version 1.
pub const TRANSPORT_FEATURES: u64 = 0x1_0000_0000;

/// Interrupt status bit of a used buffer notification.
pub const VIRTIO_MMIO_INT_VRING: u32 = 0x1;
/// Interrupt status bit of a configuration change notification.
pub const VIRTIO_MMIO_INT_CONFIG: u32 = 0x2;

/// Direction of an I/O request.
pub const IOREQ_WRITE: u8 = 0;
pub const IOREQ_READ: u8 = 1;

/// Types of an I/O request.
pub const IOREQ_TYPE_PIO: u8 = 0;
pub const IOREQ_TYPE_COPY: u8 = 1;
pub const IOREQ_TYPE_INVALIDATE: u8 = 8;

/// States of an I/O request record shared with the hypervisor.
pub const STATE_IOREQ_NONE: u8 = 0;
pub const STATE_IOREQ_READY: u8 = 1;
pub const STATE_IOREQ_INPROCESS: u8 = 2;
pub const STATE_IORESP_READY: u8 = 3;

/// Xen page geometry.
pub const XC_PAGE_SHIFT: u64 = 12;
pub const XC_PAGE_SIZE: u64 = 4096;

/// Flags of a mapped guest memory region.
pub const MMAP_XEN_FOREIGN: u32 = 0x1;
pub const MMAP_XEN_GRANT: u32 = 0x2;
pub const MMAP_XEN_NO_ADVANCE_MAP: u32 = 0x8;

/// Guest physical base of the first RAM bank of an Arm guest.
pub const GUEST_RAM0_BASE: u64 = 0x4000_0000;
pub const GUEST_RAM0_SIZE: u64 = 0xc000_0000;
pub const GUEST_RAM1_BASE: u64 = 0x02_0000_0000;

/// Bit that a guest sets in an address to mark it as a grant reference.
pub const XEN_GRANT_ADDR_OFF: u64 = 0x8000_0000_0000_0000;

/// Xen bus states.
pub const XENBUS_STATE_UNKNOWN: u32 = 0;
pub const XENBUS_STATE_INITIALISING: u32 = 1;
pub const XENBUS_STATE_INIT_WAIT: u32 = 2;
pub const XENBUS_STATE_INITIALISED: u32 = 3;
pub const XENBUS_STATE_CONNECTED: u32 = 4;

} // verus!
