//! Addressing decisions: multicast detection and socket planning.

use can_udp_bridge::endpoint::{plan_udp_sockets, SetupError, SocketAddress, UdpPlan};

fn v4(ip: u64, port: u16) -> SocketAddress {
    SocketAddress {
        is_v6: false,
        ip_hi: 0,
        ip_lo: ip,
        port,
        flowinfo: 0,
        scope_id: 0,
    }
}

fn v6(hi: u64, lo: u64, port: u16) -> SocketAddress {
    SocketAddress {
        is_v6: true,
        ip_hi: hi,
        ip_lo: lo,
        port,
        flowinfo: 0,
        scope_id: 0,
    }
}

#[test]
fn multicast_detection_v4() {
    // 224.0.0.1 and 239.255.255.250 are multicast; neighbours are not.
    assert!(v4(0xe000_0001, 1).is_multicast());
    assert!(v4(0xefff_fffa, 1).is_multicast());
    assert!(!v4(0xdfff_ffff, 1).is_multicast()); // 223.255.255.255
    assert!(!v4(0xf000_0000, 1).is_multicast()); // 240.0.0.0
    assert!(!v4(0xc0a8_0001, 1).is_multicast()); // 192.168.0.1
}

#[test]
fn multicast_detection_v6() {
    // ff02::1 is multicast; fe80::1 is not.
    assert!(v6(0xff02_0000_0000_0000, 1, 1).is_multicast());
    assert!(!v6(0xfe80_0000_0000_0000, 1, 1).is_multicast());
}

#[test]
fn unicast_plan_uses_one_connected_socket() {
    let local = v4(0xc0a8_0001, 9000);
    let remote = v4(0xc0a8_0002, 9001);
    assert_eq!(
        plan_udp_sockets(local, remote),
        Ok(UdpPlan::Unicast { local, remote })
    );
}

#[test]
fn multicast_plan_joins_the_group() {
    let local = v4(0xc0a8_0001, 9000);
    let group = v4(0xefc0_0001, 9001); // 239.192.0.1
    assert_eq!(
        plan_udp_sockets(local, group),
        Ok(UdpPlan::Multicast { group, local })
    );

    let local6 = v6(0xfe80_0000_0000_0000, 1, 9000);
    let group6 = v6(0xff02_0000_0000_0000, 0x1b, 9001);
    assert_eq!(
        plan_udp_sockets(local6, group6),
        Ok(UdpPlan::Multicast { group: group6, local: local6 })
    );
}

#[test]
fn mismatched_families_are_fatal() {
    let local = v4(0xc0a8_0001, 9000);
    let remote6 = v6(0xff02_0000_0000_0000, 1, 9001);
    assert_eq!(
        plan_udp_sockets(local, remote6),
        Err(SetupError::FamilyMismatch)
    );
    assert_eq!(
        plan_udp_sockets(remote6, local),
        Err(SetupError::FamilyMismatch)
    );
}
