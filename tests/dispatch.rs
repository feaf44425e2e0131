use xen_vhost_frontend::error::Error;
use xen_vhost_frontend::guest::{GuestDevices, XenDevice};
use xen_vhost_frontend::ioreq::{ioreq_begin, ioreq_finish, Ioreq};
use xen_vhost_frontend::mmio::{MmioAction, XenMmio};
use xen_vhost_frontend::regs::{
    IOREQ_READ, IOREQ_TYPE_COPY, IOREQ_TYPE_INVALIDATE, IOREQ_WRITE, STATE_IOREQ_INPROCESS,
    STATE_IOREQ_NONE, STATE_IOREQ_READY, STATE_IORESP_READY, VIRTIO_MMIO_DEVICE_ID,
    VIRTIO_MMIO_STATUS,
};

fn device(dev_id: u32, addr: u64, device_type: u32) -> XenDevice {
    XenDevice::new(dev_id, 40, XenMmio::new(&vec![8], addr, false, 0x1000, device_type, 0))
}

fn request(addr: u64, dir: u8, data: u64, type_: u8) -> Ioreq {
    Ioreq { addr, data, size: 4, state: STATE_IOREQ_INPROCESS, dir, type_ }
}

fn adjacent_guest() -> GuestDevices {
    let mut g = GuestDevices::new();
    g.push(device(1, 0x1000, 22)).unwrap();
    g.push(device(2, 0x1200, 29)).unwrap();
    g
}

#[test]
fn dispatch_reaches_only_owner() {
    let mut g = adjacent_guest();
    let mut r = request(0x1200 + VIRTIO_MMIO_STATUS, IOREQ_WRITE, 0x5, IOREQ_TYPE_COPY);
    assert_eq!(g.io_event(&mut r), Ok(Some((2, MmioAction::Nothing))));
    assert_eq!(g.devices[1].mmio.status, 0x5);
    assert_eq!(g.devices[0].mmio.status, 0);

    // The last byte of the first window belongs to the first device.
    let mut last = request(0x11ff, IOREQ_WRITE, 0x9, IOREQ_TYPE_COPY);
    assert_eq!(g.io_event(&mut last), Ok(Some((1, MmioAction::ConfigWrite(0xff)))));
    let mut id = request(0x1000 + VIRTIO_MMIO_DEVICE_ID, IOREQ_READ, 0, IOREQ_TYPE_COPY);
    assert_eq!(g.io_event(&mut id), Ok(Some((1, MmioAction::Nothing))));
    assert_eq!(id.data, 22);
    let mut id2 = request(0x1200 + VIRTIO_MMIO_DEVICE_ID, IOREQ_READ, 0, IOREQ_TYPE_COPY);
    assert_eq!(g.io_event(&mut id2), Ok(Some((2, MmioAction::Nothing))));
    assert_eq!(id2.data, 29);
}

#[test]
fn unclaimed_address_is_ignored() {
    let mut g = adjacent_guest();
    let mut r = request(0x1400, IOREQ_WRITE, 0x5, IOREQ_TYPE_COPY);
    let before = r;
    assert_eq!(g.io_event(&mut r), Ok(None));
    assert_eq!(r, before);
    assert_eq!(g.devices[0].mmio.status, 0);
    assert_eq!(g.devices[1].mmio.status, 0);
}

#[test]
fn non_copy_request_is_ignored() {
    let mut g = adjacent_guest();
    let mut r = request(0x1000 + VIRTIO_MMIO_STATUS, IOREQ_WRITE, 0x5, IOREQ_TYPE_INVALIDATE);
    assert_eq!(g.io_event(&mut r), Ok(None));
    assert_eq!(g.devices[0].mmio.status, 0);
}

#[test]
fn overlapping_window_is_refused() {
    let mut g = adjacent_guest();
    assert_eq!(g.push(device(3, 0x13ff, 22)), Err(Error::OverlappingWindow(0x13ff)));
    assert_eq!(g.push(device(3, 0x0e01, 22)), Err(Error::OverlappingWindow(0x0e01)));
    assert_eq!(g.push(device(3, 0x0e00, 22)), Ok(()));
    assert_eq!(g.devices.len(), 3);
}

#[test]
fn remove_devices() {
    let mut g = adjacent_guest();
    assert!(matches!(g.remove(9), Err(Error::DeviceNotFound(9))));
    let d = g.remove(1).unwrap();
    assert_eq!(d.dev_id, 1);
    assert_eq!(g.devices.len(), 1);
    assert!(!g.is_empty());
    g.remove(2).unwrap();
    assert!(g.is_empty());
    assert_eq!(g.find(2), None);
}

#[test]
fn device_window_range() {
    let d = device(1, 0x0200_0000, 22);
    assert_eq!(d.io_range(), Some((0x0200_0000, 0x0200_01ff)));
    assert!(d.contains(0x0200_01ff));
    assert!(!d.contains(0x0200_0200));
    let top = device(2, u64::MAX - 0x100, 22);
    assert_eq!(top.io_range(), None);
}

#[test]
fn device_interrupt_accumulates() {
    let mut d = device(1, 0x1000, 22);
    d.interrupt(0x1);
    d.interrupt(0x2);
    assert_eq!(d.mmio.interrupt_state, 0x3);
}

#[test]
fn ioreq_state_round_trip() {
    let mut g = adjacent_guest();
    let mut r = Ioreq {
        addr: 0x1000 + VIRTIO_MMIO_DEVICE_ID,
        data: 0,
        size: 4,
        state: STATE_IOREQ_READY,
        dir: IOREQ_READ,
        type_: IOREQ_TYPE_COPY,
    };
    assert!(ioreq_begin(&mut r));
    assert_eq!(r.state, STATE_IOREQ_INPROCESS);
    g.io_event(&mut r).unwrap();
    assert_eq!(r.state, STATE_IOREQ_INPROCESS);
    ioreq_finish(&mut r);
    assert_eq!(r.state, STATE_IORESP_READY);
    assert_eq!(r.data, 22);
}

#[test]
fn spurious_wakeup_leaves_request() {
    let mut r = request(0x1000, IOREQ_READ, 7, IOREQ_TYPE_COPY);
    r.state = STATE_IOREQ_NONE;
    let before = r;
    assert!(!ioreq_begin(&mut r));
    assert_eq!(r, before);
    r.state = STATE_IORESP_READY;
    assert!(!ioreq_begin(&mut r));
    assert_eq!(r.state, STATE_IORESP_READY);
}

use xen_vhost_frontend::guests::GuestRegistry;

#[test]
fn registry_guest_lifecycle() {
    let mut reg = GuestRegistry::new();
    assert!(reg.is_empty());
    assert_eq!(reg.add_device(3, 0), Ok(true));
    assert_eq!(reg.add_device(3, 1), Ok(false));
    assert_eq!(reg.add_device(4, 0), Ok(true));
    assert_eq!(reg.add_device(3, 1), Err(Error::DeviceExists(1)));
    assert!(reg.has_guest(3));
    assert_eq!(reg.find_guest(4), Some(1));
    assert_eq!(reg.remove_device(3, 7), Err(Error::DeviceNotFound(7)));
    assert_eq!(reg.remove_device(5, 0), Err(Error::DeviceNotFound(0)));
    assert_eq!(reg.remove_device(3, 0), Ok(false));
    assert_eq!(reg.remove_device(3, 1), Ok(true));
    assert!(!reg.has_guest(3));
    assert_eq!(reg.remove_device(4, 0), Ok(true));
    assert!(reg.is_empty());
}

#[test]
fn interrupt_by_device_id() {
    let mut g = adjacent_guest();
    assert_eq!(g.interrupt(2, 0x1), Ok(()));
    assert_eq!(g.devices[1].mmio.interrupt_state, 0x1);
    assert_eq!(g.devices[0].mmio.interrupt_state, 0);
    assert_eq!(g.interrupt(9, 0x1), Err(Error::DeviceNotFound(9)));
}
