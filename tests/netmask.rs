use ipcalc::{Ipv4Netmask, Ipv6Netmask, Netmask, NetmaskError};

#[test]
fn v4_cidr_round_trip_every_length() {
    for cidr in 0u8..=32 {
        let m = Ipv4Netmask::from_cidr(cidr).unwrap();
        let back = Ipv4Netmask::from_bits(m.to_bits()).unwrap();
        assert_eq!(back.cidr(), cidr);
    }
}

#[test]
fn v6_cidr_round_trip_every_length() {
    for cidr in 0u8..=128 {
        let m = Ipv6Netmask::from_cidr(cidr).unwrap();
        let back = Ipv6Netmask::from_bits(m.to_bits()).unwrap();
        assert_eq!(back.cidr(), cidr);
    }
}

#[test]
fn v4_from_cidr_rejects_long_prefix() {
    assert_eq!(Ipv4Netmask::from_cidr(33), Err(NetmaskError::InvalidPrefixLength));
    assert_eq!(Ipv4Netmask::from_cidr(255), Err(NetmaskError::InvalidPrefixLength));
    assert_eq!(Ipv4Netmask::from_cidr(32).unwrap().cidr(), 32);
}

#[test]
fn v6_from_cidr_rejects_long_prefix() {
    assert_eq!(Ipv6Netmask::from_cidr(129), Err(NetmaskError::InvalidPrefixLength));
    assert_eq!(Ipv6Netmask::from_cidr(128).unwrap().cidr(), 128);
}

#[test]
fn v4_to_bits_values() {
    assert_eq!(Ipv4Netmask::from_cidr(0).unwrap().to_bits(), 0);
    assert_eq!(Ipv4Netmask::from_cidr(24).unwrap().to_bits(), 0xffff_ff00);
    assert_eq!(Ipv4Netmask::from_cidr(32).unwrap().to_bits(), 0xffff_ffff);
    assert_eq!(Ipv4Netmask::from_cidr(1).unwrap().to_bits(), 0x8000_0000);
}

#[test]
fn v4_wildcard_is_complement() {
    assert_eq!(Ipv4Netmask::from_cidr(24).unwrap().wildcard(), 0x0000_00ff);
    assert_eq!(Ipv4Netmask::from_cidr(0).unwrap().wildcard(), 0xffff_ffff);
}

#[test]
fn v4_from_bits_rejects_holes() {
    assert_eq!(Ipv4Netmask::from_bits(0b1010u32 << 28), Err(NetmaskError::NonContiguousMask));
    assert_eq!(Ipv4Netmask::from_bits(0xffff_00ff), Err(NetmaskError::NonContiguousMask));
    assert_eq!(Ipv4Netmask::from_bits(0x0000_00ff), Err(NetmaskError::NonContiguousMask));
    assert_eq!(Ipv4Netmask::from_bits(1), Err(NetmaskError::NonContiguousMask));
    assert_eq!(Ipv4Netmask::from_bits(0x7fff_ffff), Err(NetmaskError::NonContiguousMask));
}

#[test]
fn v4_from_bits_accepts_exactly_one_pattern_per_length() {
    let mut accepted = 0;
    for cidr in 0u32..=32 {
        let bits = if cidr == 0 { 0 } else { u32::MAX << (32 - cidr) };
        assert_eq!(Ipv4Netmask::from_bits(bits).unwrap().cidr() as u32, cidr);
        accepted += 1;
        if cidr > 0 && cidr < 31 {
            assert!(Ipv4Netmask::from_bits(bits ^ 1).is_err());
        }
    }
    assert_eq!(accepted, 33);
    assert_eq!(Ipv4Netmask::from_bits(0).unwrap().cidr(), 0);
    assert_eq!(Ipv4Netmask::from_bits(u32::MAX).unwrap().cidr(), 32);
}

#[test]
fn v6_from_bits_accepts_valid_and_rejects_holes() {
    let mut accepted = 0;
    for cidr in 0u32..=128 {
        let bits = if cidr == 0 { 0 } else { u128::MAX << (128 - cidr) };
        assert_eq!(Ipv6Netmask::from_bits(bits).unwrap().cidr() as u32, cidr);
        accepted += 1;
        if cidr > 0 && cidr < 127 {
            assert!(Ipv6Netmask::from_bits(bits ^ 1).is_err());
        }
    }
    assert_eq!(accepted, 129);
    assert_eq!(Ipv6Netmask::from_bits(0b1010u128 << 124), Err(NetmaskError::NonContiguousMask));
}

#[test]
fn v4_octets_and_back() {
    let m = Ipv4Netmask::from_cidr(20).unwrap();
    assert_eq!(m.octets(), [255, 255, 240, 0]);
    assert_eq!(m.to_bytes(), [255, 255, 240, 0]);
    assert_eq!(Ipv4Netmask::from_octets([255, 255, 240, 0]).unwrap().cidr(), 20);
    assert_eq!(Ipv4Netmask::from_bytes([255, 255, 255, 0]).unwrap().cidr(), 24);
    assert_eq!(Ipv4Netmask::new(255, 0, 0, 0).unwrap().cidr(), 8);
    assert_eq!(Ipv4Netmask::new(255, 0, 255, 0), Err(NetmaskError::NonContiguousMask));
    assert_eq!(*m.as_cidr(), 20);
}

#[test]
fn v6_octets_and_hextets() {
    let m = Ipv6Netmask::from_cidr(20).unwrap();
    let mut want = [0u8; 16];
    want[0] = 0xff;
    want[1] = 0xff;
    want[2] = 0xf0;
    assert_eq!(m.octets(), want);
    assert_eq!(m.hextets(), [0xffff, 0xf000, 0, 0, 0, 0, 0, 0]);
    assert_eq!(Ipv6Netmask::from_octets(want).unwrap().cidr(), 20);
    assert_eq!(Ipv6Netmask::from_hextets([0xffff, 0xf000, 0, 0, 0, 0, 0, 0]).unwrap().cidr(), 20);
    assert_eq!(
        Ipv6Netmask::from_hextets([0xffff, 0xffff, 0xffff, 0xffff, 0, 0, 0, 0]).unwrap().cidr(),
        64
    );
    assert_eq!(
        Ipv6Netmask::from_hextets([0xffff, 0, 0xffff, 0, 0, 0, 0, 0]),
        Err(NetmaskError::NonContiguousMask)
    );
    assert_eq!(Ipv6Netmask::from_cidr(128).unwrap().hextets(), [0xffff; 8]);
}

#[test]
fn v4_host_num_formula() {
    assert_eq!(Ipv4Netmask::from_cidr(24).unwrap().host_num(), 254);
    assert_eq!(Ipv4Netmask::from_cidr(31).unwrap().host_num(), 0);
    assert_eq!(Ipv4Netmask::from_cidr(32).unwrap().host_num(), 0);
    assert_eq!(Ipv4Netmask::from_cidr(30).unwrap().host_num(), 2);
    assert_eq!(Ipv4Netmask::from_cidr(0).unwrap().host_num(), 4_294_967_294);
}

#[test]
fn v6_host_num_formula() {
    assert_eq!(Ipv6Netmask::from_cidr(120).unwrap().host_num(), 254);
    assert_eq!(Ipv6Netmask::from_cidr(127).unwrap().host_num(), 0);
    assert_eq!(Ipv6Netmask::from_cidr(128).unwrap().host_num(), 0);
    assert_eq!(Ipv6Netmask::from_cidr(126).unwrap().host_num(), 2);
    assert_eq!(Ipv6Netmask::from_cidr(0).unwrap().host_num(), u128::MAX - 1);
}

#[test]
fn netmask_enum_holds_either_family() {
    let a = Netmask::V4(Ipv4Netmask::from_cidr(8).unwrap());
    let b = Netmask::V6(Ipv6Netmask::from_cidr(8).unwrap());
    assert!(a != b);
    assert_eq!(a, Netmask::V4(Ipv4Netmask::from_bits(0xff00_0000).unwrap()));
}
