use entrypoint::net::{IpAddr, Ipv4Addr, Ipv6Addr};
use entrypoint::text::{decimal_string, parse_u8, split_once, starts_with};

#[test]
fn ipv4_text_is_dotted_decimal() {
    assert_eq!(Ipv4Addr::new(172, 21, 255, 253).to_string(), "172.21.255.253");
    assert_eq!(Ipv4Addr::new(0, 0, 0, 0).to_string(), "0.0.0.0");
    assert_eq!(Ipv4Addr::from_bits(0xffffffff).to_string(), "255.255.255.255");
}

#[test]
fn ipv4_bits_and_octets() {
    let a = Ipv4Addr::new(172, 21, 0, 1);
    assert_eq!(a.to_bits(), 0xac150001);
    assert_eq!(a.octets(), [172, 21, 0, 1]);
    assert!(Ipv4Addr::unspecified().is_unspecified());
    assert!(!a.is_unspecified());
    assert_eq!(a.bitand(&Ipv4Addr::new(255, 255, 0, 0)), Ipv4Addr::new(172, 21, 0, 0));
    assert_eq!(Ipv4Addr::new(172, 21, 0, 0).bitor(&Ipv4Addr::new(0, 0, 0, 1)), a);
}

#[test]
fn ipv4_parse_accepts_dotted_decimal() {
    assert_eq!(Ipv4Addr::from_str("172.21.0.1"), Ok(Ipv4Addr::new(172, 21, 0, 1)));
    assert_eq!(Ipv4Addr::from_str("0.0.0.0"), Ok(Ipv4Addr::new(0, 0, 0, 0)));
    assert_eq!(Ipv4Addr::from_str("255.255.255.255"), Ok(Ipv4Addr::from_bits(0xffffffff)));
}

#[test]
fn ipv4_parse_rejects_what_std_rejects() {
    for bad in ["", "1.2.3", "1.2.3.4.5", "256.0.0.0", "01.2.3.4", "1..2.3", "1.2.3.4 ", "a.b.c.d", "1.2.3.-4", "1234.1.1.1"] {
        assert!(Ipv4Addr::from_str(bad).is_err(), "{bad}");
    }
}

#[test]
fn ipv4_text_round_trip() {
    let cases = [
        (0u32, "0.0.0.0"),
        (1, "0.0.0.1"),
        (0x7f000001, "127.0.0.1"),
        (0xac15fffd, "172.21.255.253"),
        (0xc0a80001, "192.168.0.1"),
        (0xffffffff, "255.255.255.255"),
        (0x0a000a00, "10.0.10.0"),
    ];
    for (bits, text) in cases {
        let ours = Ipv4Addr::from_bits(bits);
        assert_eq!(ours.to_string(), text);
        assert_eq!(Ipv4Addr::from_str(text), Ok(ours));
    }
}

#[test]
fn u8_parse_follows_std() {
    for s in ["0", "7", "255", "+5", "007", "", "+", "256", "-1", " 1", "12a"] {
        assert_eq!(parse_u8(s), s.parse::<u8>().ok(), "{s}");
    }
}

#[test]
fn decimal_numerals() {
    assert_eq!(decimal_string(0), "0");
    assert_eq!(decimal_string(4318), "4318");
    assert_eq!(decimal_string(u64::MAX), u64::MAX.to_string());
}

#[test]
fn split_and_prefix() {
    assert_eq!(split_once("a/b/c", '/'), Some(("a", "b/c")));
    assert_eq!(split_once("abc", '/'), None);
    assert!(starts_with("docker0", "docker"));
    assert!(!starts_with("do", "docker"));
}

#[test]
fn ipv6_bitand_masks_octets() {
    let a = Ipv6Addr::from_octets([0xfe, 0x80, 0, 0, 0, 0, 0, 0, 0x12, 0x34, 0, 0, 0, 0, 0, 1]);
    let m = Ipv6Addr::from_octets([0xff; 8].iter().chain([0u8; 8].iter()).copied().collect::<Vec<u8>>().try_into().unwrap());
    assert_eq!(a.bitand(&m).octets(), [0xfe, 0x80, 0, 0, 0, 0, 0, 0, 0, 0, 0, 0, 0, 0, 0, 0]);
    assert_ne!(IpAddr::V6(a), IpAddr::V4(Ipv4Addr::new(0, 0, 0, 0)));
}
