use matrix_bridge::net::{is_private_ip, IpAddress, ResolveError, SafeDnsResolver};

fn v4(a: u8, b: u8, c: u8, d: u8) -> IpAddress {
    IpAddress::V4([a, b, c, d])
}

fn v6(s: [u16; 8]) -> IpAddress {
    IpAddress::V6(s)
}

#[test]
fn is_private_ip_covers_ipv4_ranges() {
    assert!(is_private_ip(v4(127, 0, 0, 1)));
    assert!(is_private_ip(v4(127, 255, 255, 255)));
    assert!(is_private_ip(v4(10, 0, 0, 0)));
    assert!(is_private_ip(v4(172, 16, 0, 0)));
    assert!(is_private_ip(v4(172, 31, 255, 255)));
    assert!(is_private_ip(v4(192, 168, 0, 0)));
    assert!(is_private_ip(v4(169, 254, 0, 1)));
    assert!(is_private_ip(v4(255, 255, 255, 255)));
    assert!(is_private_ip(v4(100, 64, 0, 1)));
    assert!(is_private_ip(v4(100, 127, 255, 255)));
    assert!(is_private_ip(v4(192, 0, 2, 1)));
    assert!(is_private_ip(v4(198, 51, 100, 1)));
    assert!(is_private_ip(v4(203, 0, 113, 1)));
    assert!(!is_private_ip(v4(8, 8, 8, 8)));
    assert!(!is_private_ip(v4(1, 1, 1, 1)));
}

#[test]
fn is_private_ip_covers_ipv6_ranges() {
    assert!(is_private_ip(v6([0, 0, 0, 0, 0, 0, 0, 1])));
    assert!(is_private_ip(v6([0, 0, 0, 0, 0, 0, 0, 0])));
    assert!(is_private_ip(v6([0xfc00, 0, 0, 0, 0, 0, 0, 1])));
    assert!(is_private_ip(v6([0xfd12, 0, 0, 0, 0, 0, 0, 1])));
    assert!(is_private_ip(v6([0xfe80, 0, 0, 0, 0, 0, 0, 1])));
    assert!(is_private_ip(v6([0, 0, 0, 0, 0, 0xffff, 0x7f00, 0x0001])));
    assert!(is_private_ip(v6([0, 0, 0, 0, 0, 0xffff, 0x0a00, 0x0001])));
    assert!(!is_private_ip(v6([0x2607, 0xf8b0, 0x4004, 0x0800, 0, 0, 0, 0x200e])));
}

#[test]
fn test_private_ipv4() {
    assert!(is_private_ip(v4(127, 0, 0, 1)));
    assert!(is_private_ip(v4(10, 0, 0, 1)));
    assert!(is_private_ip(v4(172, 16, 0, 1)));
    assert!(is_private_ip(v4(192, 168, 1, 1)));
    assert!(is_private_ip(v4(169, 254, 1, 1)));
    assert!(is_private_ip(v4(0, 0, 0, 0)));
    assert!(is_private_ip(v4(100, 64, 0, 1)));
}

#[test]
fn test_public_ipv4() {
    assert!(!is_private_ip(v4(8, 8, 8, 8)));
    assert!(!is_private_ip(v4(1, 1, 1, 1)));
    assert!(!is_private_ip(v4(93, 184, 216, 34)));
}

#[test]
fn test_private_ipv6() {
    assert!(is_private_ip(v6([0, 0, 0, 0, 0, 0, 0, 1])));
    assert!(is_private_ip(v6([0, 0, 0, 0, 0, 0, 0, 0])));
    assert!(is_private_ip(v6([0xfc00, 0, 0, 0, 0, 0, 0, 1])));
    assert!(is_private_ip(v6([0xfe80, 0, 0, 0, 0, 0, 0, 1])));
}

#[test]
fn test_public_ipv6() {
    assert!(!is_private_ip(v6([0x2001, 0x4860, 0x4860, 0, 0, 0, 0, 0x8888])));
}

#[test]
fn test_ipv4_mapped_ipv6() {
    assert!(is_private_ip(v6([0, 0, 0, 0, 0, 0xffff, 0x7f00, 0x0001])));
    assert!(!is_private_ip(v6([0, 0, 0, 0, 0, 0xffff, 0x0808, 0x0808])));
}

#[test]
fn resolver_keeps_only_public_addresses() {
    let r = SafeDnsResolver::new();
    let addrs = vec![(v4(10, 0, 0, 1), 80), (v4(8, 8, 8, 8), 80), (v4(127, 0, 0, 1), 443)];
    let kept = r.filter(&addrs).unwrap();
    assert_eq!(kept.len(), 1);
    assert!(matches!(kept[0].0, IpAddress::V4([8, 8, 8, 8])));
    assert_eq!(kept[0].1, 80);
    assert_eq!(r.filter(&vec![(v4(10, 0, 0, 1), 80)]).unwrap_err(), ResolveError::AllPrivate);
    assert_eq!(r.filter(&vec![]).unwrap_err(), ResolveError::NoAddresses);
}
