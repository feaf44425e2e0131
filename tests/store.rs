use xen_vhost_frontend::error::Error;
use xen_vhost_frontend::layout::{
    dom_size, grant_region, guest_ram_banks, insert_region, queue_ring_regions,
    remaining_guest_regions, Region,
};
use xen_vhost_frontend::registry::{device_dir, node_path, str_eq, vcpu_of_port, DeviceInfo, DeviceTable};
use xen_vhost_frontend::regs::{MMAP_XEN_FOREIGN, MMAP_XEN_GRANT, MMAP_XEN_NO_ADVANCE_MAP};
use xen_vhost_frontend::xs::{expect_state, parse_device_path, parse_int, state_in_mask};

const GRANT: u64 = 0x8000_0000_0000_0000;

#[test]
fn store_integers() {
    assert_eq!(parse_int("0"), Ok(0));
    assert_eq!(parse_int("42"), Ok(42));
    assert_eq!(parse_int("+42"), Ok(42));
    assert_eq!(parse_int("0x2000000"), Ok(0x0200_0000));
    assert_eq!(parse_int("0xFfff"), Ok(0xffff));
    assert_eq!(parse_int("4294967295"), Ok(u32::MAX));
    assert_eq!(parse_int("4294967296"), Err(Error::ParseFailure));
    assert_eq!(parse_int(""), Err(Error::ParseFailure));
    assert_eq!(parse_int("+"), Err(Error::ParseFailure));
    assert_eq!(parse_int("0x"), Err(Error::ParseFailure));
    assert_eq!(parse_int("12a"), Err(Error::ParseFailure));
    assert_eq!(parse_int("-1"), Err(Error::ParseFailure));
}

#[test]
fn watch_paths() {
    assert_eq!(parse_device_path("backend/virtio/3/0"), Ok(Some((3, 0))));
    assert_eq!(parse_device_path("backend/virtio/12/7"), Ok(Some((12, 7))));
    assert_eq!(parse_device_path("backend/virtio/3"), Ok(None));
    assert_eq!(parse_device_path("backend/virtio/3/0/state"), Ok(None));
    assert_eq!(parse_device_path("backend/virtio/x/0"), Err(Error::ParseFailure));
    assert_eq!(parse_device_path("backend/virtio/70000/0"), Err(Error::ParseFailure));
}

#[test]
fn bus_state_waits() {
    // Waiting for init-wait (2): reached by 2, and by unknown (0).
    assert!(state_in_mask(2, 1 << 2));
    assert!(state_in_mask(0, 1 << 2));
    assert!(!state_in_mask(1, 1 << 2));
    assert!(!state_in_mask(40, u32::MAX));
    assert_eq!(expect_state(1, 1), Ok(()));
    assert_eq!(expect_state(4, 1), Err(Error::XBInvalidState));
}

#[test]
fn device_info_and_index() {
    let mut d = DeviceInfo::new("i2c", 22);
    assert_eq!(d.compatible, "virtio,device22");
    assert_eq!(d.name, "i2c");
    assert_eq!(d.index(), "0");
    assert_eq!(d.index(), "1");
    assert_eq!(d.index, 2);
}

#[test]
fn device_table_claims() {
    let mut t = DeviceTable::supported();
    let b = t.claim("virtio,device29", "/tmp/vhost-").unwrap();
    assert_eq!(b.name, "gpio");
    assert_eq!(b.socket, "/tmp/vhost-gpio.sock0");
    let b2 = t.claim("virtio,device29", "/tmp/vhost-").unwrap();
    assert_eq!(b2.socket, "/tmp/vhost-gpio.sock1");
    let i = t.claim("virtio,device22", "").unwrap();
    assert_eq!(i.socket, "i2c.sock0");
    assert_eq!(
        t.claim("virtio,device1", "/tmp/").err(),
        Some(Error::XenDevNotSupported("virtio,device1".to_string()))
    );
}

#[test]
fn store_paths() {
    assert_eq!(device_dir(3, 10), "backend/virtio/3/10");
    assert_eq!(node_path("backend/virtio/3/10", "state"), "backend/virtio/3/10/state");
    assert!(str_eq("abc", "abc"));
    assert!(!str_eq("abc", "abd"));
}

#[test]
fn vcpu_ports() {
    let ports = vec![17, 18, 21];
    assert_eq!(vcpu_of_port(&ports, 21), Some(2));
    assert_eq!(vcpu_of_port(&ports, 5), None);
}

#[test]
fn ring_region_sizes() {
    let r = queue_ring_regions(256, GRANT | 0x1000, GRANT | 0x2000, GRANT | 0x3000);
    assert_eq!(r.len(), 3);
    assert_eq!(r[0], Region { addr: GRANT | 0x1000, size: 4096, flags: MMAP_XEN_GRANT });
    assert_eq!(r[1], Region { addr: GRANT | 0x2000, size: 518, flags: MMAP_XEN_GRANT });
    assert_eq!(r[2], Region { addr: GRANT | 0x3000, size: 2054, flags: MMAP_XEN_GRANT });
    let empty = queue_ring_regions(0, 1, 2, 3);
    assert_eq!(empty.len(), 2);
    assert_eq!(grant_region(5, 0, 0), None);
    assert_eq!(grant_region(5, 1, 8), Some(Region { addr: 5, size: 1, flags: 10 }));
}

#[test]
fn regions_sorted_on_insert() {
    let mut v: Vec<Region> = Vec::new();
    for a in [0x3000u64, 0x1000, 0x2000, 0x1000] {
        insert_region(&mut v, Region { addr: a, size: 1, flags: 0 });
    }
    let starts: Vec<u64> = v.iter().map(|r| r.addr).collect();
    assert_eq!(starts, vec![0x1000, 0x1000, 0x2000, 0x3000]);
}

#[test]
fn remaining_memory() {
    let nf = MMAP_XEN_NO_ADVANCE_MAP | MMAP_XEN_GRANT;
    let rs = vec![
        Region { addr: GRANT | 0x2000, size: 0x100, flags: MMAP_XEN_GRANT },
        Region { addr: GRANT | 0x2800, size: 0x100, flags: MMAP_XEN_GRANT },
    ];
    assert_eq!(
        remaining_guest_regions(&rs, 0x5000),
        vec![
            Region { addr: GRANT, size: 0x2000, flags: nf },
            Region { addr: GRANT | 0x3000, size: 0x2000, flags: nf },
        ]
    );
    // Nothing is left when the rings reach the end of guest memory.
    assert_eq!(remaining_guest_regions(&rs, 0x3000), vec![Region { addr: GRANT, size: 0x2000, flags: nf }]);
    assert_eq!(
        remaining_guest_regions(&vec![], 0x4000),
        vec![Region { addr: GRANT, size: 0x4000, flags: nf }]
    );
}

#[test]
fn domain_size() {
    assert_eq!(dom_size(1, 3, 3, 0x1_0004), Ok(0x1000_0000));
    assert_eq!(dom_size(0, 0, 3, 10), Err(Error::InvalidDomainInfo(0, 3, 0)));
    assert_eq!(dom_size(1, 4, 3, 10), Err(Error::InvalidDomainInfo(1, 3, 4)));
    assert_eq!(dom_size(1, 3, 3, 2), Err(Error::InvalidDomainInfo(1, 3, 3)));
}

#[test]
fn ram_banks() {
    assert_eq!(guest_ram_banks(0), vec![]);
    assert_eq!(
        guest_ram_banks(0x4000_0000),
        vec![Region { addr: 0x4000_0000, size: 0x4000_0000, flags: MMAP_XEN_FOREIGN }]
    );
    assert_eq!(
        guest_ram_banks(0x1_0000_0000),
        vec![
            Region { addr: 0x4000_0000, size: 0xc000_0000, flags: MMAP_XEN_FOREIGN },
            Region { addr: 0x2_0000_0000, size: 0x4000_0000, flags: MMAP_XEN_FOREIGN },
        ]
    );
}
