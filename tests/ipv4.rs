use flota::ipv4::{dhcp_range, AddrError, NodeIdError, IPv4};

#[test]
fn test_ipv4_new() {
    match IPv4::from_cidr_notation("192.168.1.10/24") {
        Ok(v) => {
            assert_eq!(v.ip(), "192.168.1.10");
            assert_eq!(v.mask(), "255.255.255.0");
            assert_eq!(v.mask_bit(), 24);
        }
        Err(_) => {
            panic!("ipv4 initialisation failed.");
        }
    }
    match IPv4::from_cidr_notation("255.100.255.100/13") {
        Ok(v) => {
            assert_eq!(v.ip(), "255.100.255.100");
            assert_eq!(v.mask(), "255.248.0.0");
            assert_eq!(v.mask_bit(), 13);
        }
        Err(_) => {
            panic!("ipv4 initialisation failed.");
        }
    }
}

#[test]
fn test_ipv4_siblings() {
    let mut ip1 = IPv4::from_cidr_notation("172.16.12.1/24").unwrap();
    ip1.incr_node_id().expect("incr_node_id failed");
    assert_eq!(ip1.ip(), "172.16.12.2");
    ip1.decr_node_id().expect("decr_node_id failed");
    assert_eq!(ip1.ip(), "172.16.12.1");
    ip1.decr_node_id().expect("decr_node_id failed");
    assert_eq!(ip1.ip(), "172.16.12.0");
    match ip1.decr_node_id() {
        Ok(_) => panic!("should be err"),
        Err(_) => {
            assert_eq!(ip1.ip(), "172.16.12.0");
        }
    }
    let mut ip2 = ip1.largest_sibling();
    assert_eq!(ip2.ip(), "172.16.12.255");
    match ip2.incr_node_id() {
        Ok(_) => panic!("should be err"),
        Err(_) => {
            assert_eq!(ip2.ip(), "172.16.12.255");
        }
    }
    assert_eq!(ip2.nth_sibling(77).ip(), "172.16.12.77");
    assert_eq!(ip2.nth_sibling(256).ip(), "172.16.12.0");
    assert_eq!(ip2.nth_sibling(-1).ip(), "172.16.12.255");
}

#[test]
fn cidr_parse_errors() {
    assert_eq!(IPv4::from_cidr_notation("10.0.0.1"), Err(AddrError::InvalidArgument));
    assert_eq!(IPv4::from_cidr_notation("10.0.0.1/8/8"), Err(AddrError::InvalidArgument));
    assert_eq!(IPv4::from_cidr_notation("10.0.1/8"), Err(AddrError::InvalidIpPart));
    assert_eq!(IPv4::from_cidr_notation("10.0.0.256/8"), Err(AddrError::InvalidIpPart));
    assert_eq!(IPv4::from_cidr_notation("10.0.x.1/8"), Err(AddrError::InvalidIpPart));
    assert_eq!(IPv4::from_cidr_notation("10.0..1/8"), Err(AddrError::InvalidIpPart));
    assert_eq!(IPv4::from_cidr_notation("10.0.0.1/0"), Err(AddrError::InvalidMaskBit));
    assert_eq!(IPv4::from_cidr_notation("10.0.0.1/33"), Err(AddrError::InvalidMaskBit));
    assert_eq!(IPv4::from_cidr_notation("10.0.0.1/"), Err(AddrError::InvalidMaskBit));
}

#[test]
fn cidr_edges() {
    let full = IPv4::from_cidr_notation("0.0.0.0/32").unwrap();
    assert_eq!(full.mask(), "255.255.255.255");
    assert_eq!(full.mask_bit(), 32);
    let wide = IPv4::from_cidr_notation("255.255.255.255/1").unwrap();
    assert_eq!(wide.mask(), "128.0.0.0");
    assert_eq!(wide.nw_addr().ip(), "128.0.0.0");
    assert_eq!(wide.largest_sibling().ip(), "255.255.255.255");
    let padded = IPv4::from_cidr_notation("010.001.000.009/024").unwrap();
    assert_eq!(padded.ip(), "10.1.0.9");
    assert_eq!(padded.mask_bit(), 24);
}

#[test]
fn network_and_names() {
    let ip = IPv4::from_cidr_notation("192.168.1.10/24").unwrap();
    assert_eq!(ip.nw_addr().ip(), "192.168.1.0");
    assert_eq!(ip.nw_addr().mask_bit(), 24);
    assert_eq!(ip.hyphenated(), "192-168-1-10-24");
    let odd = IPv4::from_cidr_notation("172.16.13.200/22").unwrap();
    assert_eq!(odd.nw_addr().ip(), "172.16.12.0");
    assert_eq!(odd.largest_sibling().ip(), "172.16.15.255");
    assert_eq!(odd.nth_sibling(1).ip(), "172.16.12.1");
}

#[test]
fn node_id_carries_across_octets() {
    let mut ip = IPv4::from_cidr_notation("10.0.0.255/16").unwrap();
    ip.incr_node_id().unwrap();
    assert_eq!(ip.ip(), "10.0.1.0");
    ip.decr_node_id().unwrap();
    assert_eq!(ip.ip(), "10.0.0.255");
    let mut top = IPv4::from_cidr_notation("10.0.255.255/16").unwrap();
    assert_eq!(top.incr_node_id(), Err(NodeIdError::AlreadyHighest));
    let mut bottom = IPv4::from_cidr_notation("10.0.0.0/16").unwrap();
    assert_eq!(bottom.decr_node_id(), Err(NodeIdError::AlreadyLowest));
}

#[test]
fn dhcp_range_of_bridge() {
    let br = IPv4::from_cidr_notation("192.168.122.1/24").unwrap();
    let (start, end) = dhcp_range(&br).unwrap();
    assert_eq!(start.ip(), "192.168.122.2");
    assert_eq!(end.ip(), "192.168.122.254");
    let last = IPv4::from_cidr_notation("192.168.122.255/24").unwrap();
    assert_eq!(dhcp_range(&last), Err(NodeIdError::AlreadyHighest));
}
