use xen_vhost_frontend::error::{Access, Error};
use xen_vhost_frontend::ioreq::Ioreq;
use xen_vhost_frontend::layout::Region;
use xen_vhost_frontend::mmio::{MmioAction, QueueSetup, XenMmio};
use xen_vhost_frontend::regs::{
    IOREQ_READ, IOREQ_TYPE_COPY, IOREQ_WRITE, MMAP_XEN_FOREIGN, MMAP_XEN_GRANT,
    MMAP_XEN_NO_ADVANCE_MAP, STATE_IOREQ_READY, VIRTIO_MMIO_CONFIG_GENERATION,
    VIRTIO_MMIO_DEVICE_FEATURES, VIRTIO_MMIO_DEVICE_FEATURES_SEL, VIRTIO_MMIO_DEVICE_ID,
    VIRTIO_MMIO_DRIVER_FEATURES, VIRTIO_MMIO_DRIVER_FEATURES_SEL, VIRTIO_MMIO_INTERRUPT_ACK,
    VIRTIO_MMIO_INTERRUPT_STATUS, VIRTIO_MMIO_MAGIC_VALUE, VIRTIO_MMIO_QUEUE_AVAIL_HIGH,
    VIRTIO_MMIO_QUEUE_AVAIL_LOW, VIRTIO_MMIO_QUEUE_DESC_HIGH, VIRTIO_MMIO_QUEUE_DESC_LOW,
    VIRTIO_MMIO_QUEUE_NOTIFY, VIRTIO_MMIO_QUEUE_NUM, VIRTIO_MMIO_QUEUE_NUM_MAX,
    VIRTIO_MMIO_QUEUE_READY, VIRTIO_MMIO_QUEUE_SEL, VIRTIO_MMIO_QUEUE_USED_HIGH,
    VIRTIO_MMIO_QUEUE_USED_LOW, VIRTIO_MMIO_STATUS, VIRTIO_MMIO_VENDOR_ID, VIRTIO_MMIO_VERSION,
};

const BASE: u64 = 0x0200_0000;
const GRANT: u64 = 0x8000_0000_0000_0000;

fn transport(foreign: bool) -> XenMmio {
    XenMmio::new(&vec![256, 256], BASE, foreign, 0x10_0000, 22, 0x1)
}

fn write(m: &mut XenMmio, offset: u64, data: u64) -> Result<MmioAction, Error> {
    m.io_write(offset, data)
}

fn read(m: &XenMmio, offset: u64) -> u32 {
    m.io_read(offset).unwrap()
}

fn accept_version_1(m: &mut XenMmio) {
    write(m, VIRTIO_MMIO_DRIVER_FEATURES_SEL, 1).unwrap();
    write(m, VIRTIO_MMIO_DRIVER_FEATURES, 1).unwrap();
}

fn set_rings(m: &mut XenMmio, desc: u64, avail: u64, used: u64) {
    accept_version_1(m);
    write(m, VIRTIO_MMIO_QUEUE_DESC_LOW, desc & 0xffff_ffff).unwrap();
    write(m, VIRTIO_MMIO_QUEUE_DESC_HIGH, desc >> 32).unwrap();
    write(m, VIRTIO_MMIO_QUEUE_AVAIL_LOW, avail & 0xffff_ffff).unwrap();
    write(m, VIRTIO_MMIO_QUEUE_AVAIL_HIGH, avail >> 32).unwrap();
    write(m, VIRTIO_MMIO_QUEUE_USED_LOW, used & 0xffff_ffff).unwrap();
    write(m, VIRTIO_MMIO_QUEUE_USED_HIGH, used >> 32).unwrap();
}

#[test]
fn identity_registers_are_constant() {
    let m = transport(false);
    assert_eq!(read(&m, VIRTIO_MMIO_MAGIC_VALUE), 0x7472_6976);
    assert_eq!(read(&m, VIRTIO_MMIO_MAGIC_VALUE), u32::from_le_bytes(*b"virt"));
    assert_eq!(read(&m, VIRTIO_MMIO_VERSION), 2);
    assert_eq!(read(&m, VIRTIO_MMIO_VENDOR_ID), 0x4d56_4b4c);
    assert_eq!(read(&m, VIRTIO_MMIO_DEVICE_ID), 22);
    assert_eq!(read(&m, VIRTIO_MMIO_STATUS), 0);
    assert_eq!(read(&m, VIRTIO_MMIO_CONFIG_GENERATION), 0);
}

#[test]
fn identity_registers_after_negotiation() {
    let mut m = transport(false);
    write(&mut m, VIRTIO_MMIO_DRIVER_FEATURES_SEL, 1).unwrap();
    write(&mut m, VIRTIO_MMIO_DRIVER_FEATURES, 1).unwrap();
    write(&mut m, VIRTIO_MMIO_STATUS, 0xf).unwrap();
    assert_eq!(read(&m, VIRTIO_MMIO_MAGIC_VALUE), 0x7472_6976);
    assert_eq!(read(&m, VIRTIO_MMIO_VERSION), 2);
    assert_eq!(read(&m, VIRTIO_MMIO_VENDOR_ID), 0x4d56_4b4c);
    assert_eq!(read(&m, VIRTIO_MMIO_STATUS), 0xf);
}

#[test]
fn device_features_words() {
    let mut m = transport(false);
    assert_eq!(read(&m, VIRTIO_MMIO_DEVICE_FEATURES), 0x1);
    write(&mut m, VIRTIO_MMIO_DEVICE_FEATURES_SEL, 1).unwrap();
    // Version 1 only: the platform IOMMU bit is not offered.
    assert_eq!(read(&m, VIRTIO_MMIO_DEVICE_FEATURES), 0x1);
    write(&mut m, VIRTIO_MMIO_DEVICE_FEATURES_SEL, 2).unwrap();
    assert_eq!(m.io_read(VIRTIO_MMIO_DEVICE_FEATURES), Err(Error::InvalidFeatureSel(2)));
}

#[test]
fn unknown_register_is_refused() {
    let mut m = transport(false);
    assert_eq!(m.io_read(0x0ec), Err(Error::InvalidMmioAddr(Access::Read, 0x0ec)));
    assert_eq!(write(&mut m, 0x0ec, 1), Err(Error::InvalidMmioAddr(Access::Write, 0x0ec)));
}

#[test]
fn access_against_register_direction() {
    let mut m = transport(false);
    assert_eq!(write(&mut m, VIRTIO_MMIO_MAGIC_VALUE, 1), Err(Error::InvalidMmioDir(IOREQ_WRITE)));
    assert_eq!(write(&mut m, VIRTIO_MMIO_QUEUE_NUM_MAX, 1), Err(Error::InvalidMmioDir(IOREQ_WRITE)));
    assert_eq!(m.io_read(VIRTIO_MMIO_QUEUE_NOTIFY), Err(Error::InvalidMmioDir(IOREQ_READ)));
    assert_eq!(m.io_read(VIRTIO_MMIO_INTERRUPT_ACK), Err(Error::InvalidMmioDir(IOREQ_READ)));
    assert_eq!(read(&m, VIRTIO_MMIO_MAGIC_VALUE), 0x7472_6976);
}

#[test]
fn legacy_driver_is_refused() {
    let mut m = transport(false);
    write(&mut m, VIRTIO_MMIO_DRIVER_FEATURES_SEL, 1).unwrap();
    assert_eq!(write(&mut m, VIRTIO_MMIO_DRIVER_FEATURES, 0), Err(Error::MmioLegacyNotSupported));
    assert_eq!(write(&mut m, VIRTIO_MMIO_DRIVER_FEATURES, 2), Err(Error::MmioLegacyNotSupported));
}

#[test]
fn features_negotiated_once_with_both_halves() {
    let mut m = transport(false);
    assert_eq!(write(&mut m, VIRTIO_MMIO_DRIVER_FEATURES_SEL, 1), Ok(MmioAction::Nothing));
    assert_eq!(write(&mut m, VIRTIO_MMIO_DRIVER_FEATURES, 0x1), Ok(MmioAction::Nothing));
    assert_eq!(write(&mut m, VIRTIO_MMIO_DRIVER_FEATURES_SEL, 0), Ok(MmioAction::Nothing));
    assert_eq!(
        write(&mut m, VIRTIO_MMIO_DRIVER_FEATURES, 0x8000_0005),
        Ok(MmioAction::NegotiateFeatures(0x1_8000_0005))
    );
    assert_eq!(m.driver_features, 0x1_8000_0005);
}

#[test]
fn driver_feature_selector_above_one() {
    let mut m = transport(false);
    write(&mut m, VIRTIO_MMIO_DRIVER_FEATURES_SEL, 2).unwrap();
    assert_eq!(write(&mut m, VIRTIO_MMIO_DRIVER_FEATURES, 1), Err(Error::InvalidFeatureSel(2)));
    assert_eq!(m.driver_features, 0);
}

#[test]
fn zero_ring_address_is_refused() {
    let mut m = transport(false);
    write(&mut m, VIRTIO_MMIO_QUEUE_NUM, 128).unwrap();
    set_rings(&mut m, GRANT | 0x1000, GRANT | 0x2000, 0);
    assert_eq!(write(&mut m, VIRTIO_MMIO_QUEUE_READY, 1), Err(Error::InvalidQueueAddr(0)));
    assert_eq!(read(&m, VIRTIO_MMIO_QUEUE_READY), 0);
    assert!(m.regions().is_empty());
    assert!(!m.is_activated());
}

#[test]
fn two_queue_activation() {
    let mut m = transport(false);
    write(&mut m, VIRTIO_MMIO_QUEUE_SEL, 0).unwrap();
    assert_eq!(read(&m, VIRTIO_MMIO_QUEUE_NUM_MAX), 256);
    write(&mut m, VIRTIO_MMIO_QUEUE_NUM, 128).unwrap();
    set_rings(&mut m, GRANT | 0x1000, GRANT | 0x2000, GRANT | 0x3000);
    let first = write(&mut m, VIRTIO_MMIO_QUEUE_READY, 1).unwrap();
    assert_eq!(
        first,
        MmioAction::MapRegions(vec![
            Region { addr: GRANT | 0x1000, size: 16 * 128, flags: MMAP_XEN_GRANT },
            Region { addr: GRANT | 0x2000, size: 2 * 128 + 6, flags: MMAP_XEN_GRANT },
            Region { addr: GRANT | 0x3000, size: 8 * 128 + 6, flags: MMAP_XEN_GRANT },
        ])
    );
    assert_eq!(read(&m, VIRTIO_MMIO_QUEUE_NUM_MAX), 256);
    assert_eq!(read(&m, VIRTIO_MMIO_QUEUE_READY), 1);
    assert!(!m.is_activated());

    write(&mut m, VIRTIO_MMIO_QUEUE_SEL, 1).unwrap();
    assert_eq!(read(&m, VIRTIO_MMIO_QUEUE_READY), 0);
    write(&mut m, VIRTIO_MMIO_QUEUE_NUM, 128).unwrap();
    set_rings(&mut m, GRANT | 0x5000, GRANT | 0x6000, GRANT | 0x7000);
    let second = write(&mut m, VIRTIO_MMIO_QUEUE_READY, 1).unwrap();
    assert!(m.is_activated());
    let nf = MMAP_XEN_NO_ADVANCE_MAP | MMAP_XEN_GRANT;
    match second {
        MmioAction::Activate(map, queues) => {
            assert_eq!(
                map,
                vec![
                    Region { addr: GRANT | 0x5000, size: 16 * 128, flags: MMAP_XEN_GRANT },
                    Region { addr: GRANT | 0x6000, size: 2 * 128 + 6, flags: MMAP_XEN_GRANT },
                    Region { addr: GRANT | 0x7000, size: 8 * 128 + 6, flags: MMAP_XEN_GRANT },
                    Region { addr: GRANT, size: 0x1000, flags: nf },
                    Region { addr: GRANT | 0x4000, size: 0x1000, flags: nf },
                    Region { addr: GRANT | 0x8000, size: 0x10_0000 - 0x8000, flags: nf },
                ]
            );
            assert_eq!(
                queues,
                vec![
                    QueueSetup {
                        index: 0,
                        size: 128,
                        desc: GRANT | 0x1000,
                        avail: GRANT | 0x2000,
                        used: GRANT | 0x3000,
                    },
                    QueueSetup {
                        index: 1,
                        size: 128,
                        desc: GRANT | 0x5000,
                        avail: GRANT | 0x6000,
                        used: GRANT | 0x7000,
                    },
                ]
            );
        }
        other => panic!("expected activation, got {:?}", other),
    }
    let starts: Vec<u64> = m.regions().iter().map(|r| r.addr).collect();
    let mut sorted = starts.clone();
    sorted.sort();
    assert_eq!(starts, sorted);
    assert_eq!(m.regions().len(), 9);
}

#[test]
fn activation_is_not_repeated() {
    let mut m = XenMmio::new(&vec![64], BASE, true, 0x10_0000, 29, 0);
    write(&mut m, VIRTIO_MMIO_QUEUE_NUM, 64).unwrap();
    set_rings(&mut m, 0x4000_1000, 0x4000_2000, 0x4000_3000);
    match write(&mut m, VIRTIO_MMIO_QUEUE_READY, 1).unwrap() {
        MmioAction::Activate(map, queues) => {
            assert!(map.is_empty());
            assert_eq!(queues.len(), 1);
        }
        other => panic!("expected activation, got {:?}", other),
    }
    assert_eq!(write(&mut m, VIRTIO_MMIO_QUEUE_READY, 0), Ok(MmioAction::ResetQueue(0)));
    assert_eq!(read(&m, VIRTIO_MMIO_QUEUE_READY), 0);
    assert_eq!(write(&mut m, VIRTIO_MMIO_QUEUE_READY, 1), Ok(MmioAction::MapRegions(vec![])));
    assert!(m.is_activated());
    assert_eq!(
        m.regions(),
        &vec![Region { addr: 0x4000_0000, size: 0x10_0000, flags: MMAP_XEN_FOREIGN }]
    );
}

#[test]
fn notify_unknown_queue() {
    let mut m = transport(false);
    let before_sel = m.queue_sel;
    assert_eq!(
        write(&mut m, VIRTIO_MMIO_QUEUE_NOTIFY, 5),
        Err(Error::InvalidMmioAddr(Access::Write, VIRTIO_MMIO_QUEUE_NOTIFY))
    );
    assert_eq!(m.queue_sel, before_sel);
    assert_eq!(read(&m, VIRTIO_MMIO_QUEUE_READY), 0);
    assert_eq!(write(&mut m, VIRTIO_MMIO_QUEUE_NOTIFY, 1), Ok(MmioAction::Kick(1)));
}

#[test]
fn interrupt_ack_clears_bits() {
    let mut m = transport(false);
    m.update_interrupt_state(0x1);
    m.update_interrupt_state(0x2);
    assert_eq!(read(&m, VIRTIO_MMIO_INTERRUPT_STATUS), 0x3);
    write(&mut m, VIRTIO_MMIO_INTERRUPT_ACK, 0x1).unwrap();
    assert_eq!(read(&m, VIRTIO_MMIO_INTERRUPT_STATUS), 0x2);
}

#[test]
fn queue_selector_out_of_range() {
    let mut m = transport(false);
    write(&mut m, VIRTIO_MMIO_QUEUE_SEL, 7).unwrap();
    assert_eq!(m.io_read(VIRTIO_MMIO_QUEUE_NUM_MAX), Err(Error::InvalidQueueSel(7)));
    assert_eq!(write(&mut m, VIRTIO_MMIO_QUEUE_NUM, 8), Err(Error::InvalidQueueSel(7)));
}

fn req(addr: u64, dir: u8, data: u64) -> Ioreq {
    Ioreq { addr, data, size: 4, state: STATE_IOREQ_READY, dir, type_: IOREQ_TYPE_COPY }
}

#[test]
fn io_event_reads_and_writes() {
    let mut m = transport(false);
    let mut r = req(BASE + VIRTIO_MMIO_MAGIC_VALUE, IOREQ_READ, 0);
    assert_eq!(m.io_event(&mut r), Ok(MmioAction::Nothing));
    assert_eq!(r.data, 0x7472_6976);
    let mut w = req(BASE + VIRTIO_MMIO_STATUS, IOREQ_WRITE, 0x7);
    assert_eq!(m.io_event(&mut w), Ok(MmioAction::Nothing));
    assert_eq!(read(&m, VIRTIO_MMIO_STATUS), 0x7);
}

#[test]
fn io_event_config_space_and_direction() {
    let mut m = transport(false);
    let mut r = req(BASE + 0x108, IOREQ_READ, 0);
    assert_eq!(m.io_event(&mut r), Ok(MmioAction::ConfigRead(8)));
    let mut w = req(BASE + 0x100, IOREQ_WRITE, 3);
    assert_eq!(m.io_event(&mut w), Ok(MmioAction::ConfigWrite(0)));
    let mut bad = req(BASE, 5, 0);
    assert_eq!(m.io_event(&mut bad), Err(Error::InvalidMmioDir(5)));
}

#[test]
fn ring_address_needs_version_1() {
    let mut m = transport(false);
    assert_eq!(write(&mut m, VIRTIO_MMIO_QUEUE_DESC_LOW, 0x1000), Err(Error::MmioLegacyNotSupported));
    assert_eq!(write(&mut m, VIRTIO_MMIO_QUEUE_USED_HIGH, 0x1), Err(Error::MmioLegacyNotSupported));
    assert_eq!(read(&m, VIRTIO_MMIO_QUEUE_DESC_LOW), 0);
    assert_eq!(read(&m, VIRTIO_MMIO_QUEUE_USED_HIGH), 0);
    accept_version_1(&mut m);
    assert_eq!(write(&mut m, VIRTIO_MMIO_QUEUE_DESC_LOW, 0x1000), Ok(MmioAction::Nothing));
    assert_eq!(read(&m, VIRTIO_MMIO_QUEUE_DESC_LOW), 0x1000);
}

#[test]
fn ready_twice_maps_rings_once() {
    let mut m = transport(false);
    write(&mut m, VIRTIO_MMIO_QUEUE_NUM, 64).unwrap();
    set_rings(&mut m, GRANT | 0x1000, GRANT | 0x2000, GRANT | 0x3000);
    match write(&mut m, VIRTIO_MMIO_QUEUE_READY, 1).unwrap() {
        MmioAction::MapRegions(r) => assert_eq!(r.len(), 3),
        other => panic!("expected ring regions, got {:?}", other),
    }
    assert_eq!(write(&mut m, VIRTIO_MMIO_QUEUE_READY, 1), Ok(MmioAction::Nothing));
    assert_eq!(m.regions().len(), 3);
}

#[test]
fn rings_mapped_after_activation_in_grant_mode() {
    let mut m = XenMmio::new(&vec![64], BASE, false, 0x10_0000, 29, 0);
    write(&mut m, VIRTIO_MMIO_QUEUE_NUM, 64).unwrap();
    set_rings(&mut m, GRANT | 0x1000, GRANT | 0x2000, GRANT | 0x3000);
    assert!(matches!(write(&mut m, VIRTIO_MMIO_QUEUE_READY, 1), Ok(MmioAction::Activate(_, _))));
    assert_eq!(write(&mut m, VIRTIO_MMIO_QUEUE_READY, 0), Ok(MmioAction::ResetQueue(0)));
    set_rings(&mut m, GRANT | 0x9000, GRANT | 0xa000, GRANT | 0xb000);
    assert_eq!(
        write(&mut m, VIRTIO_MMIO_QUEUE_READY, 1),
        Ok(MmioAction::MapRegions(vec![
            Region { addr: GRANT | 0x9000, size: 16 * 64, flags: MMAP_XEN_GRANT },
            Region { addr: GRANT | 0xa000, size: 2 * 64 + 6, flags: MMAP_XEN_GRANT },
            Region { addr: GRANT | 0xb000, size: 8 * 64 + 6, flags: MMAP_XEN_GRANT },
        ]))
    );
    assert!(m.is_activated());
}

#[test]
fn protocol_violations() {
    assert!(Error::MmioLegacyNotSupported.is_protocol_violation());
    assert!(Error::InvalidFeatureSel(2).is_protocol_violation());
    assert!(Error::InvalidQueueAddr(0).is_protocol_violation());
    assert!(!Error::InvalidMmioAddr(Access::Read, 0xec).is_protocol_violation());
    assert!(!Error::InvalidMmioDir(5).is_protocol_violation());
}

#[test]
fn zero_ring_address_on_ready_queue() {
    let mut m = transport(false);
    write(&mut m, VIRTIO_MMIO_QUEUE_NUM, 128).unwrap();
    set_rings(&mut m, GRANT | 0x1000, GRANT | 0x2000, GRANT | 0x3000);
    write(&mut m, VIRTIO_MMIO_QUEUE_READY, 1).unwrap();
    write(&mut m, VIRTIO_MMIO_QUEUE_DESC_LOW, 0).unwrap();
    write(&mut m, VIRTIO_MMIO_QUEUE_DESC_HIGH, 0).unwrap();
    assert_eq!(write(&mut m, VIRTIO_MMIO_QUEUE_READY, 1), Err(Error::InvalidQueueAddr(0)));
    assert_eq!(m.regions().len(), 3);
}

#[test]
fn bad_queue_size_is_refused() {
    for size in [0u64, 100, 65536] {
        let mut m = transport(false);
        write(&mut m, VIRTIO_MMIO_QUEUE_NUM, size).unwrap();
        set_rings(&mut m, GRANT | 0x1000, GRANT | 0x2000, GRANT | 0x3000);
        assert_eq!(write(&mut m, VIRTIO_MMIO_QUEUE_READY, 1), Err(Error::InvalidQueueSize(0)));
        assert_eq!(read(&m, VIRTIO_MMIO_QUEUE_READY), 0);
        assert!(m.regions().is_empty());
    }
    assert!(Error::InvalidQueueSize(0).is_protocol_violation());
}
