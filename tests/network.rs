use ipcalc::{Ipv4Addr, Ipv4Netmask, Ipv4Network, Ipv6Addr, Ipv6Netmask, Ipv6Network, Network};

fn v4(a: u8, b: u8, c: u8, d: u8) -> Ipv4Addr {
    Ipv4Addr::new(a, b, c, d)
}

fn net4(a: Ipv4Addr, cidr: u8) -> Ipv4Network {
    Ipv4Network::new(a, Ipv4Netmask::from_cidr(cidr).unwrap())
}

#[test]
fn address_bytes() {
    let a = v4(192, 168, 3, 7);
    assert_eq!(a.to_bits(), 0xc0a8_0307);
    assert_eq!(a.octets(), [192, 168, 3, 7]);
    assert_eq!(Ipv4Addr::from_bits(0xc0a8_0307), a);
    let b = Ipv6Addr::from_bits(0x2001_0db8_0000_0000_0000_0000_0000_0001);
    assert_eq!(b.octets()[0], 0x20);
    assert_eq!(b.octets()[15], 0x01);
}

#[test]
fn new_clears_host_bits() {
    let n = net4(v4(192, 168, 3, 77), 24);
    assert_eq!(n.network_addr(), v4(192, 168, 3, 0));
    assert_eq!(n.address(), v4(192, 168, 3, 0));
    assert_eq!(n.netmask().cidr(), 24);
}

#[test]
fn normalization_is_idempotent() {
    let mask = Ipv4Netmask::from_cidr(23).unwrap();
    let once = Ipv4Network::new(v4(192, 168, 3, 32), mask);
    let twice = Ipv4Network::new(once.network_addr(), mask);
    assert_eq!(once.network_addr(), twice.network_addr());
    assert_eq!(once, twice);
}

#[test]
fn boundary_hosts_slash_24() {
    let n = net4(v4(192, 168, 3, 0), 24);
    assert_eq!(n.network_addr(), v4(192, 168, 3, 0));
    assert_eq!(n.broadcast_addr(), v4(192, 168, 3, 255));
    assert_eq!(n.min_host(), Some(v4(192, 168, 3, 1)));
    assert_eq!(n.max_host(), Some(v4(192, 168, 3, 254)));
}

#[test]
fn point_to_point_slash_31() {
    let n = net4(v4(10, 0, 0, 0), 31);
    assert_eq!(n.min_host(), Some(v4(10, 0, 0, 0)));
    assert_eq!(n.max_host(), Some(v4(10, 0, 0, 1)));
}

#[test]
fn single_host_slash_32() {
    let n = net4(v4(10, 0, 0, 5), 32);
    assert_eq!(n.min_host(), None);
    assert_eq!(n.max_host(), None);
    assert_eq!(n.broadcast_addr(), v4(10, 0, 0, 5));
}

#[test]
fn whole_space_slash_0() {
    let n = net4(v4(10, 1, 2, 3), 0);
    assert_eq!(n.network_addr(), v4(0, 0, 0, 0));
    assert_eq!(n.broadcast_addr(), v4(255, 255, 255, 255));
    assert_eq!(n.min_host(), Some(v4(0, 0, 0, 1)));
    assert_eq!(n.max_host(), Some(v4(255, 255, 255, 254)));
    assert!(n.contains(v4(1, 2, 3, 4)));
    assert!(n.contains(v4(255, 255, 255, 255)));
}

#[test]
fn membership_slash_23() {
    let n = net4(v4(192, 168, 3, 32), 23);
    assert_eq!(n.network_addr(), v4(192, 168, 2, 0));
    assert_eq!(n.broadcast_addr(), v4(192, 168, 3, 255));
    assert!(n.contains(v4(192, 168, 2, 200)));
    assert!(!n.contains(v4(192, 168, 4, 0)));
    assert!(n.contains(v4(192, 168, 3, 255)));
    assert!(!n.contains(v4(192, 168, 1, 255)));
}

#[test]
fn from_hosts_tightest_prefix() {
    let n = Ipv4Network::from_hosts(v4(192, 168, 0, 1), v4(192, 168, 0, 254));
    assert_eq!(n.netmask().cidr(), 24);
    assert_eq!(n.network_addr(), v4(192, 168, 0, 0));
    let same = Ipv4Network::from_hosts(v4(10, 0, 0, 9), v4(10, 0, 0, 9));
    assert_eq!(same.netmask().cidr(), 32);
    let wide = Ipv4Network::from_hosts(v4(0, 0, 0, 0), v4(128, 0, 0, 0));
    assert_eq!(wide.netmask().cidr(), 0);
}

#[test]
fn iteration_includes_broadcast() {
    let n = net4(v4(192, 168, 3, 32), 23);
    let mut it = n.into_iter();
    let mut all = Vec::new();
    while let Some(a) = it.next() {
        all.push(a);
    }
    assert_eq!(all.len(), 512);
    assert_eq!(all[0], v4(192, 168, 2, 0));
    assert_eq!(all[1], v4(192, 168, 2, 1));
    assert_eq!(all[511], v4(192, 168, 3, 255));
    assert_eq!(it.next(), None);
}

#[test]
fn iteration_single_host_and_top_of_space() {
    let mut it = net4(v4(255, 255, 255, 255), 32).into_iter();
    assert_eq!(it.next(), Some(v4(255, 255, 255, 255)));
    assert_eq!(it.next(), None);
    let mut it = net4(v4(255, 255, 255, 254), 31).into_iter();
    assert_eq!(it.next(), Some(v4(255, 255, 255, 254)));
    assert_eq!(it.next(), Some(v4(255, 255, 255, 255)));
    assert_eq!(it.next(), None);
}

#[test]
fn iterator_empty_when_reversed() {
    let mut it = ipcalc::NetworkIterator::new(v4(10, 0, 0, 5), v4(10, 0, 0, 4));
    assert_eq!(it.next(), None);
}

fn v6(bits: u128) -> Ipv6Addr {
    Ipv6Addr::from_bits(bits)
}

#[test]
fn v6_network_bounds() {
    let base = 0x2001_0db8_0000_0000_0000_0000_0000_0000u128;
    let n = Ipv6Network::new(v6(base | 0x1234), Ipv6Netmask::from_cidr(120).unwrap());
    assert_eq!(n.network_addr(), v6(base | 0x1200));
    assert_eq!(n.broadcast_addr(), v6(base | 0x12ff));
    assert_eq!(n.min_host(), Some(v6(base | 0x1201)));
    assert_eq!(n.max_host(), Some(v6(base | 0x12fe)));
    assert!(n.contains(v6(base | 0x1280)));
    assert!(!n.contains(v6(base | 0x1300)));
    assert_eq!(n.netmask().cidr(), 120);
}

#[test]
fn v6_point_to_point_and_single() {
    let p = Ipv6Network::new(v6(8), Ipv6Netmask::from_cidr(127).unwrap());
    assert_eq!(p.min_host(), Some(v6(8)));
    assert_eq!(p.max_host(), Some(v6(9)));
    let s = Ipv6Network::new(v6(8), Ipv6Netmask::from_cidr(128).unwrap());
    assert_eq!(s.min_host(), None);
    assert_eq!(s.max_host(), None);
    let all = Ipv6Network::new(v6(8), Ipv6Netmask::from_cidr(0).unwrap());
    assert!(all.contains(v6(u128::MAX)));
}

#[test]
fn v6_from_hosts_tightest_prefix() {
    let n = Ipv6Network::from_hosts(v6(0x1_0001), v6(0x1_00fe));
    assert_eq!(n.netmask().cidr(), 120);
    assert_eq!(n.network_addr(), v6(0x1_0000));
    let same = Ipv6Network::from_hosts(v6(5), v6(5));
    assert_eq!(same.netmask().cidr(), 128);
    let wide = Ipv6Network::from_hosts(v6(0), v6(1u128 << 127));
    assert_eq!(wide.netmask().cidr(), 0);
}

#[test]
fn network_enum_holds_either_family() {
    let a = Network::V4(net4(v4(10, 0, 0, 0), 8));
    let b = Network::V6(Ipv6Network::new(v6(0), Ipv6Netmask::from_cidr(8).unwrap()));
    assert!(a != b);
}
