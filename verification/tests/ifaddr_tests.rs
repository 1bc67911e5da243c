use entrypoint::docker::network::ifaddr::{
    IfAddrsEntry, IfAddrsReadResult, IfAddrsReadResultAddress, Ipv4Network, Ipv6Network, NetType,
    NetworkAdapter, ReadNetworkAdaptersError, RouteEntry, SaFamily, SockAddr, split_network_text,
};
use entrypoint::net::{AddrParseError, IpAddr, Ipv4Addr, Ipv6Addr};

#[test]
fn net_type_from_interface_name() {
    assert_eq!(NetType::from("eth0"), NetType::Wired);
    assert_eq!(NetType::from("enp3s0"), NetType::Wired);
    assert_eq!(NetType::from("wlan0"), NetType::Wireless);
    assert_eq!(NetType::from("lo"), NetType::Local);
    assert_eq!(NetType::from("veth1234"), NetType::Virtual);
    assert_eq!(NetType::from("br-5f1"), NetType::Bridge);
    assert_eq!(NetType::from("docker0"), NetType::Bridge);
    assert_eq!(NetType::from("tun0"), NetType::Unknown);
    assert_eq!(NetType::from(""), NetType::Unknown);
    assert_eq!(NetType::default(), NetType::Unknown);
}

#[test]
fn sa_family_from_linux_numbers() {
    assert_eq!(SaFamily::from(2), SaFamily::Inet4);
    assert_eq!(SaFamily::from(10), SaFamily::Inet6);
    assert_eq!(SaFamily::from(17), SaFamily::Packet);
    assert_eq!(SaFamily::from(1), SaFamily::Unsupported(1));
    assert_eq!(SaFamily::from(libc::AF_INET as u16), SaFamily::Inet4);
}

#[test]
fn ipv4_network_default_and_text() {
    let n = Ipv4Network::default();
    assert_eq!(n.to_string(), "172.21.0.0/16");
    assert_eq!(n.address(), Ipv4Addr::new(172, 21, 0, 0));
    assert_eq!(n.size(), 16);
}

#[test]
fn ipv4_network_try_new_checks_size_and_host_bits() {
    assert!(Ipv4Network::try_new(Ipv4Addr::new(10, 0, 0, 0), 8).is_ok());
    assert!(Ipv4Network::try_new(Ipv4Addr::new(10, 1, 2, 3), 32).is_ok());
    assert!(Ipv4Network::try_new(Ipv4Addr::new(0, 0, 0, 0), 0).is_ok());
    assert_eq!(
        Ipv4Network::try_new(Ipv4Addr::new(10, 0, 0, 0), 33),
        Err(ReadNetworkAdaptersError::Other("Network size has to be 32 or less, not 33".to_string()))
    );
    assert_eq!(
        Ipv4Network::try_new(Ipv4Addr::new(10, 0, 0, 1), 24),
        Err(ReadNetworkAdaptersError::Other("Address part of network 10.0.0.1/24 is not 0".to_string()))
    );
}

#[test]
fn ipv4_network_from_address_and_subnet_mask() {
    let n = Ipv4Network::new_from_address_and_subnet_mask(
        Ipv4Addr::new(192, 168, 1, 77),
        Ipv4Addr::new(255, 255, 255, 0),
    )
    .unwrap();
    assert_eq!(n.to_string(), "192.168.1.0/24");
    // A mask that is not a prefix can leave host bits set.
    assert!(Ipv4Network::new_from_address_and_subnet_mask(
        Ipv4Addr::new(192, 168, 1, 77),
        Ipv4Addr::new(255, 0, 255, 0),
    )
    .is_err());
}

#[test]
fn ipv4_network_from_str() {
    assert_eq!(Ipv4Network::from_str("172.21.0.0/16").unwrap(), Ipv4Network::default());
    assert_eq!(
        Ipv4Network::from_str("172.21.0.0"),
        Err(ReadNetworkAdaptersError::Other("No '/' found".to_string()))
    );
    assert!(matches!(Ipv4Network::from_str("172.21.0/16"), Err(ReadNetworkAdaptersError::InvalidAddress(_))));
    assert!(matches!(Ipv4Network::from_str("172.21.0.0/x"), Err(ReadNetworkAdaptersError::InvalidInt(_))));
    assert!(matches!(Ipv4Network::from_str("172.21.0.0/40"), Err(ReadNetworkAdaptersError::Other(_))));
    let n = Ipv4Network::from_str("10.0.0.0/8").unwrap();
    assert_eq!(Ipv4Network::from_str(&n.to_string()).unwrap(), n);
}

#[test]
fn ipv6_network_from_address_and_subnet_mask() {
    let mut mask = [0u8; 16];
    for b in mask.iter_mut().take(8) {
        *b = 0xff;
    }
    mask[8] = 0xf0;
    let addr = Ipv6Addr::from_octets([0x20, 0x01, 0x0d, 0xb8, 0, 1, 0, 2, 0xab, 0xcd, 0, 0, 0, 0, 0, 1]);
    let n = Ipv6Network::new_from_address_and_subnet_mask(addr, Ipv6Addr::from_octets(mask));
    assert_eq!(n.prefix_len(), 68);
    assert_eq!(n.address.octets(), [0x20, 0x01, 0x0d, 0xb8, 0, 1, 0, 2, 0xa0, 0, 0, 0, 0, 0, 0, 0]);
    assert_eq!(Ipv6Network::new(addr, 64).prefix_len(), 64);
}

#[test]
fn read_result_of_entries() {
    let null = IfAddrsEntry { name: "eth0".to_string(), address: None };
    assert_eq!(IfAddrsReadResult::try_from(null), Err(ReadNetworkAdaptersError::PropertyNull("ifa_addr")));
    let other = IfAddrsEntry { name: "eth0".to_string(), address: Some(SockAddr::Unsupported(1)) };
    assert_eq!(IfAddrsReadResult::try_from(other), Err(ReadNetworkAdaptersError::UnsupportedSaFamily(1)));
    let packet = IfAddrsEntry {
        name: "eth0".to_string(),
        address: Some(SockAddr::Packet { sll_addr: [0x02, 0x42, 0xac, 0x11, 0x00, 0x0f, 0xee, 0xee] }),
    };
    assert_eq!(
        IfAddrsReadResult::try_from(packet),
        Ok(IfAddrsReadResult {
            name: "eth0".to_string(),
            address: IfAddrsReadResultAddress::Mac("02:42:ac:11:00:0f".to_string())
        })
    );
}

fn inet(name: &str, a: [u8; 4], m: [u8; 4]) -> IfAddrsEntry {
    IfAddrsEntry {
        name: name.to_string(),
        address: Some(SockAddr::Inet {
            address: Ipv4Addr::new(a[0], a[1], a[2], a[3]),
            netmask: Ipv4Addr::new(m[0], m[1], m[2], m[3]),
        }),
    }
}

#[test]
fn adapters_gathered_per_interface() {
    let entries = vec![
        IfAddrsEntry { name: "lo".to_string(), address: None },
        inet("eth0", [192, 168, 1, 5], [255, 255, 255, 0]),
        IfAddrsEntry {
            name: "eth0".to_string(),
            address: Some(SockAddr::Packet { sll_addr: [1, 2, 3, 4, 5, 6, 0, 0] }),
        },
        inet("lo", [127, 0, 0, 1], [255, 0, 0, 0]),
        inet("eth0", [10, 0, 5, 1], [255, 0, 255, 0]),
    ];
    let routes = vec![
        RouteEntry { iface: "eth0".to_string(), destination: Ipv4Addr::new(0, 0, 0, 0), gateway: Ipv4Addr::new(192, 168, 1, 1) },
        RouteEntry { iface: "eth0".to_string(), destination: Ipv4Addr::new(192, 168, 1, 0), gateway: Ipv4Addr::new(0, 0, 0, 0) },
        RouteEntry { iface: "wg0".to_string(), destination: Ipv4Addr::new(0, 0, 0, 0), gateway: Ipv4Addr::new(10, 9, 0, 1) },
    ];
    let adapters = NetworkAdapter::try_read_from_system(entries, routes);
    assert_eq!(adapters.len(), 3);
    let eth0 = &adapters[0];
    assert_eq!(eth0.name, "eth0");
    assert_eq!(eth0.net_type, NetType::Wired);
    assert_eq!(eth0.mac.as_deref(), Some("01:02:03:04:05:06"));
    assert_eq!(eth0.ipv4_networks, vec![Ipv4Network::from_str("192.168.1.0/24").unwrap()]);
    assert_eq!(
        eth0.ip_addresses,
        vec![IpAddr::V4(Ipv4Addr::new(192, 168, 1, 5)), IpAddr::V4(Ipv4Addr::new(10, 0, 5, 1))]
    );
    assert_eq!(eth0.gateway, Some(Ipv4Addr::new(192, 168, 1, 1)));
    let lo = &adapters[1];
    assert_eq!(lo.name, "lo");
    assert_eq!(lo.net_type, NetType::Local);
    assert_eq!(lo.mac, None);
    assert_eq!(lo.ipv4_networks, vec![Ipv4Network::from_str("127.0.0.0/8").unwrap()]);
    assert_eq!(lo.gateway, None);
    let wg0 = &adapters[2];
    assert_eq!(wg0.name, "wg0");
    assert_eq!(wg0.net_type, NetType::Unknown);
    assert!(wg0.ip_addresses.is_empty());
    assert_eq!(wg0.gateway, Some(Ipv4Addr::new(10, 9, 0, 1)));
}

#[test]
fn new_adapter_is_empty() {
    let a = NetworkAdapter::new("wlp2s0".to_string());
    assert_eq!(a.name, "wlp2s0");
    assert_eq!(a.net_type, NetType::Wireless);
    assert!(a.mac.is_none() && a.ipv4_networks.is_empty() && a.ipv6_networks.is_empty());
    assert!(a.ip_addresses.is_empty() && a.gateway.is_none());
}

#[test]
fn network_text_split_at_first_slash() {
    assert_eq!(split_network_text("fd00::/8"), Ok(("fd00::", "8")));
    assert_eq!(split_network_text("a/b/c"), Ok(("a", "b/c")));
    assert_eq!(
        split_network_text("fd00::"),
        Err(ReadNetworkAdaptersError::Other("No '/' found".to_string()))
    );
}

#[test]
fn ipv6_network_from_parts() {
    let mut o = [0u8; 16];
    o[0] = 0xfd;
    let a = Ipv6Addr::from_octets(o);
    let n = Ipv6Network::from_parts(Ok(a), "64").unwrap();
    assert_eq!(n.address.octets(), o);
    assert_eq!(n.prefix_len(), 64);
    assert_eq!(Ipv6Network::from_parts(Ok(a), "+200").unwrap().prefix_len(), 200);
    assert!(matches!(Ipv6Network::from_parts(Ok(a), "256"), Err(ReadNetworkAdaptersError::InvalidInt(_))));
    assert!(matches!(Ipv6Network::from_parts(Ok(a), ""), Err(ReadNetworkAdaptersError::InvalidInt(_))));
    assert_eq!(
        Ipv6Network::from_parts(Err(AddrParseError), "x"),
        Err(ReadNetworkAdaptersError::InvalidAddress(AddrParseError))
    );
}
