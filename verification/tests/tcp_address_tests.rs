use zmq_core::socket::{ZmqSockAddrIn, ZmqSockAddrIn6};
use zmq_core::tcp_address::{
    ipv4_endpoint, mask_length, resolve_ipv4_address, split_at_last, split_host_port, IpAddrEnum,
    TcpAddress, TcpAddressMask, AF_INET, AF_INET6,
};

fn chars(s: &str) -> Vec<char> {
    s.chars().collect()
}

#[test]
fn tcp_ipv4_address_round_trip() {
    let sa = resolve_ipv4_address(&chars("192.168.1.20:5555")).unwrap();
    assert_eq!((sa.family, sa.port, sa.addr), (AF_INET, 5555, 0xc0a8_0114));
    assert_eq!(ipv4_endpoint(&sa), "tcp://192.168.1.20:5555");
}

#[test]
fn tcp_ipv4_address_rejects() {
    for bad in [
        "192.168.1.20", "192.168.1:5555", "192.168.1.256:1", "01.2.3.4:1", "1.2.3.4:65536",
        "1.2.3.4:", "1.2.3.4:-1", "a.b.c.d:1", "1.2.3.4.5:1", "1..3.4:1", "1234.1.1.1:1",
    ] {
        assert!(resolve_ipv4_address(&chars(bad)).is_none(), "{bad}");
    }
    assert!(resolve_ipv4_address(&chars("0.0.0.0:+80")).is_some());
}

#[test]
fn tcp_split_helpers() {
    assert_eq!(split_host_port(&chars("::1:80")), Some((chars("::1"), 80)));
    assert_eq!(split_host_port(&chars("host")), None);
    assert_eq!(split_at_last(&chars("a;b;c"), ';'), (chars("a;b"), Some(chars("c"))));
    assert_eq!(split_at_last(&chars("abc"), ';'), (chars("abc"), None));
}

#[test]
fn tcp_mask_lengths() {
    assert_eq!(mask_length(None, false), Some(32));
    assert_eq!(mask_length(None, true), Some(128));
    assert_eq!(mask_length(Some(&chars("0")), false), Some(0));
    assert_eq!(mask_length(Some(&chars("24")), false), Some(24));
    assert_eq!(mask_length(Some(&chars("33")), false), None);
    assert_eq!(mask_length(Some(&chars("100")), true), Some(100));
    assert_eq!(mask_length(Some(&chars("-1")), true), None);
    assert_eq!(mask_length(Some(&chars("00")), true), None);
    assert_eq!(mask_length(Some(&chars("x")), true), None);
}

#[test]
fn tcp_address_from_sockaddr() {
    let mut v4 = vec![0u8; 16];
    v4[2] = 0x15;
    v4[3] = 0xb3;
    v4[4..8].copy_from_slice(&[127, 0, 0, 1]);
    let a = TcpAddress::from_sockaddr(AF_INET, &v4);
    match a.address {
        IpAddrEnum::V4(ZmqSockAddrIn { port, addr, .. }) => assert_eq!((port, addr), (5555, 0x7f00_0001)),
        _ => panic!("not IPv4"),
    }
    let mut v6 = vec![0u8; 28];
    v6[3] = 80;
    v6[23] = 1;
    let b = TcpAddress::from_sockaddr(AF_INET6, &v6);
    match b.address {
        IpAddrEnum::V6(sa) => {
            assert_eq!(sa.port, 80);
            assert_eq!(sa.addr[15], 1);
        }
        _ => panic!("not IPv6"),
    }
    let c = TcpAddress::from_sockaddr(AF_INET6, &v4);
    assert!(matches!(c.address, IpAddrEnum::V4(ZmqSockAddrIn { addr: 0, port: 0, .. })));
    assert!(!c.has_src_addr);
    let m = TcpAddressMask::new();
    assert_eq!(m.address_mask, -1);
    assert!(m.match_address(&v4));
}

#[test]
fn tcp_address_resolve_ipv4_with_and_without_source() {
    let mut a = TcpAddress::new();
    assert_eq!(a.resolve_ipv4(&chars("10.0.0.1:7000")), Ok(()));
    assert!(matches!(a.address, IpAddrEnum::V4(ZmqSockAddrIn { addr: 0x0A00_0001, port: 7000, .. })));
    assert!(!a.has_src_addr);

    let mut b = TcpAddress::new();
    assert_eq!(b.resolve_ipv4(&chars("192.168.0.2:0;10.0.0.1:7000")), Ok(()));
    assert!(b.has_src_addr);
    assert!(matches!(b.source_address, IpAddrEnum::V4(ZmqSockAddrIn { addr: 0xC0A8_0002, port: 0, .. })));
    assert!(matches!(b.address, IpAddrEnum::V4(ZmqSockAddrIn { addr: 0x0A00_0001, port: 7000, .. })));

    // A source that does not read stops before anything is set.
    let mut c = TcpAddress::new();
    assert_eq!(c.resolve_ipv4(&chars("nohost;10.0.0.1:7000")), Err(-1));
    assert!(!c.has_src_addr);
    assert!(matches!(c.address, IpAddrEnum::V4(ZmqSockAddrIn { addr: 0, port: 0, .. })));

    // A destination that does not read leaves the source set.
    let mut d = TcpAddress::new();
    assert_eq!(d.resolve_ipv4(&chars("1.2.3.4:5;bad")), Err(-1));
    assert!(d.has_src_addr);
    assert!(matches!(d.source_address, IpAddrEnum::V4(ZmqSockAddrIn { addr: 0x0102_0304, port: 5, .. })));
    assert!(matches!(d.address, IpAddrEnum::V4(ZmqSockAddrIn { addr: 0, port: 0, .. })));
}

#[test]
fn tcp_address_mask_resolve_ipv4() {
    let mut m = TcpAddressMask::new();
    assert_eq!(m.resolve_ipv4(&chars("10.1.0.0:0/16")), Ok(()));
    assert_eq!(m.address_mask, 16);
    assert!(matches!(m.network_address, IpAddrEnum::V4(ZmqSockAddrIn { addr: 0x0A01_0000, .. })));

    let mut n = TcpAddressMask::new();
    assert_eq!(n.resolve_ipv4(&chars("10.1.0.0:0")), Ok(()));
    assert_eq!(n.address_mask, 32);
    let mut z = TcpAddressMask::new();
    assert_eq!(z.resolve_ipv4(&chars("10.1.0.0:0/0")), Ok(()));
    assert_eq!(z.address_mask, 0);

    // The address is kept though the mask is too long.
    let mut o = TcpAddressMask::new();
    assert_eq!(o.resolve_ipv4(&chars("10.1.0.0:0/33")), Err(-1));
    assert_eq!(o.address_mask, -1);
    assert!(matches!(o.network_address, IpAddrEnum::V4(ZmqSockAddrIn { addr: 0x0A01_0000, .. })));

    let mut p = TcpAddressMask::new();
    assert_eq!(p.resolve_ipv4(&chars("nohost/8")), Err(-1));
    assert_eq!(p.address_mask, -1);
}

#[test]
fn tcp_address_set_resolved_stores_parts() {
    let mut a = TcpAddress::new();
    let v6 = IpAddrEnum::V6(ZmqSockAddrIn6 { family: AF_INET6, port: 9, flow_info: 0, addr: [1u8; 16], scope_id: 0 });
    assert_eq!(a.set_resolved(None, Some(v6)), Ok(()));
    assert!(matches!(a.address, IpAddrEnum::V6(ZmqSockAddrIn6 { port: 9, .. })));
    assert_eq!(a.set_resolved(Some(None), None), Err(-1));
    let mut m = TcpAddressMask::new();
    let v6b = IpAddrEnum::V6(ZmqSockAddrIn6 { family: AF_INET6, port: 0, flow_info: 0, addr: [0u8; 16], scope_id: 0 });
    assert_eq!(m.set_resolved(Some(v6b), Some(&chars("64")), true), Ok(()));
    assert_eq!(m.address_mask, 64);
}
