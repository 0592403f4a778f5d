use vstd::prelude::*;

use crate::addr::Ipv6Addr;
use crate::netmask::v6::{Ipv6Netmask, mask_v6};

verus! {

/// `addr` lies in the network with base `network` and prefix length `cidr`: the two agree on
/// the first `cidr` bits.
pub open spec fn in_network_v6(network: u128, cidr: u8, addr: u128) -> bool {
    addr & mask_v6(cidr) == network & mask_v6(cidr)
}

/// The last address of the network with base `network` and prefix length `cidr`.
pub open spec fn broadcast_v6(network: u128, cidr: u8) -> u128 {
    network | !mask_v6(cidr)
}

proof fn lemma_host_bits_room_v6(n: u128, c: u8)
    by (bit_vector)
    requires
        c <= 128,
        n & mask_v6(c) == n,
    ensures
        c <= 126 ==> n < 0xffff_ffff_ffff_ffff_ffff_ffff_ffff_ffffu128,
        c < 128 ==> (n | !mask_v6(c)) > 0,
{
}

/// Masking an address a second time changes nothing: rebuilding a network from its own base
/// address gives the same base address.
pub proof fn lemma_mask_idempotent_v6(a: u128, c: u8)
    by (bit_vector)
    ensures
        (a & mask_v6(c)) & mask_v6(c) == a & mask_v6(c),
{
}

#[verifier::rlimit(100)]
proof fn lemma_shr_xor(n: u128, a: u128, s: u128)
    by (bit_vector)
    ensures
        (n ^ a) >> s == (n >> s) ^ (a >> s),
{
}

proof fn lemma_xor_zero(x: u128, y: u128)
    by (bit_vector)
    ensures
        (x == y) == (x ^ y == 0),
{
}

proof fn lemma_shift_eq_xor(n: u128, a: u128, s: u128)
    requires
        s < 128,
    ensures
        (n >> s == a >> s) == ((n ^ a) >> s == 0),
{
    lemma_shr_xor(n, a, s);
    lemma_xor_zero(n >> s, a >> s);
}

proof fn lemma_shift_zero_mask(x: u128, c: u8)
    by (bit_vector)
    requires
        1 <= c <= 128,
    ensures
        (x >> ((128 - c) as u128) == 0) == (x & mask_v6(c) == 0),
{
}

proof fn lemma_xor_mask(n: u128, a: u128, m: u128)
    by (bit_vector)
    ensures
        ((n ^ a) & m == 0) == (a & m == n & m),
{
}

proof fn lemma_prefix_shift_v6(n: u128, a: u128, c: u8)
    requires
        1 <= c <= 128,
    ensures
        ((n >> ((128 - c) as u128)) == (a >> ((128 - c) as u128))) == (a & mask_v6(c) == n
            & mask_v6(c)),
{
    lemma_shift_eq_xor(n, a, (128 - c) as u128);
    lemma_shift_zero_mask(n ^ a, c);
    lemma_xor_mask(n, a, mask_v6(c));
}

proof fn lemma_zero_prefix_step(x: u128, lz: u8)
    by (bit_vector)
    requires
        lz < 128,
        x & mask_v6(lz) == 0,
        (x >> ((127 - lz) as u32)) & 1 == 0,
    ensures
        x & mask_v6((lz + 1) as u8) == 0,
{
}

proof fn lemma_common_prefix_v6(x: u128, y: u128, lz: u8)
    by (bit_vector)
    requires
        lz <= 128,
        (x ^ y) & mask_v6(lz) == 0,
        lz < 128 ==> ((x ^ y) >> ((127 - lz) as u32)) & 1 != 0,
    ensures
        x & mask_v6(lz) == y & mask_v6(lz),
        forall|c: u8| lz < c <= 128 ==> x & #[trigger] mask_v6(c) != y & mask_v6(c),
{
}

/// An IPv6 network: a base address whose host bits are clear, and a netmask.
#[derive(Clone, Copy, PartialEq, Eq, Structural, Debug, Hash)]
pub struct Ipv6Network {
    network_addr: Ipv6Addr,
    netmask: Ipv6Netmask,
}

impl View for Ipv6Network {
    /// The base address and the prefix length.
    type V = (u128, u8);

    closed spec fn view(&self) -> (u128, u8) {
        (self.network_addr@, self.netmask@)
    }
}

impl Ipv6Network {
    #[verifier::type_invariant]
    spec fn inv(self) -> bool {
        &&& self.netmask@ <= 128
        &&& self.network_addr@ & mask_v6(self.netmask@) == self.network_addr@
    }

    pub fn netmask(&self) -> (r: Ipv6Netmask)
        ensures
            r@ == self@.1,
    {
        self.netmask
    }

    /// The network of `address` under `netmask`; the host bits of `address` are cleared.
    pub fn new(address: Ipv6Addr, netmask: Ipv6Netmask) -> (r: Self)
        ensures
            r@ == (address@ & mask_v6(netmask@), netmask@),
    {
        let cidr = netmask.cidr();
        let network_bits = address.to_bits() & netmask.to_bits();
        proof { lemma_mask_idempotent_v6(address@, cidr); }
        Ipv6Network { network_addr: Ipv6Addr::from_bits(network_bits), netmask }
    }

    /// The smallest network that holds both `first` and `last`: its prefix is the run of
    /// leading bits on which they agree.
    pub fn from_hosts(first: Ipv6Addr, last: Ipv6Addr) -> (r: Self)
        ensures
            r@.1 <= 128,
            r@.0 == first@ & mask_v6(r@.1),
            in_network_v6(r@.0, r@.1, first@),
            in_network_v6(r@.0, r@.1, last@),
            forall|c: u8|
                r@.1 < c <= 128 ==> !(first@ & #[trigger] mask_v6(c) == last@ & mask_v6(c)),
    {
        let xor_res = first.to_bits() ^ last.to_bits();
        assert(xor_res & mask_v6(0) == 0) by (bit_vector);
        let mut lz: u8 = 0;
        while lz < 128 && (xor_res >> ((127 - lz) as u32)) & 1 == 0
            invariant
                lz <= 128,
                xor_res & mask_v6(lz) == 0,
            decreases 128 - lz,
        {
            proof { lemma_zero_prefix_step(xor_res, lz); }
            lz = lz + 1;
        }
        proof {
            lemma_common_prefix_v6(first@, last@, lz);
            lemma_mask_idempotent_v6(first@, lz);
        }
        let mask = Ipv6Netmask::from_cidr(lz).unwrap();
        Self::new(first, mask)
    }

    /// The base address: the network's first address, with every host bit clear.
    pub fn network_addr(&self) -> (r: Ipv6Addr)
        ensures
            r@ == self@.0,
            r@ & mask_v6(self@.1) == r@,
    {
        proof { use_type_invariant(self); }
        self.network_addr
    }

    /// The network's last address, with every host bit set.
    pub fn broadcast_addr(&self) -> (r: Ipv6Addr)
        ensures
            r@ == broadcast_v6(self@.0, self@.1),
    {
        let addr_bits = self.network_addr.to_bits();
        let mask_bits = !self.netmask.to_bits();
        Ipv6Addr::from_bits(addr_bits | mask_bits)
    }

    /// The first usable host: none in a /128, the base address in a /127, else the one after
    /// it.
    pub fn min_host(&self) -> (r: Option<Ipv6Addr>)
        ensures
            match r {
                None => self@.1 == 128,
                Some(a) => self@.1 < 128 && a@ == if self@.1 == 127 {
                    self@.0
                } else {
                    (self@.0 + 1) as u128
                },
            },
    {
        proof {
            use_type_invariant(self);
            lemma_host_bits_room_v6(self@.0, self@.1);
        }
        let cidr = self.netmask.cidr();
        if cidr == 128 {
            None
        } else if cidr == 127 {
            Some(self.network_addr())
        } else {
            Some(Ipv6Addr::from_bits(self.network_addr.to_bits() + 1))
        }
    }

    /// The last usable host: none in a /128, the last address in a /127, else the one before
    /// it.
    pub fn max_host(&self) -> (r: Option<Ipv6Addr>)
        ensures
            match r {
                None => self@.1 == 128,
                Some(a) => self@.1 < 128 && a@ == if self@.1 == 127 {
                    broadcast_v6(self@.0, self@.1)
                } else {
                    (broadcast_v6(self@.0, self@.1) - 1) as u128
                },
            },
    {
        proof {
            use_type_invariant(self);
            lemma_host_bits_room_v6(self@.0, self@.1);
        }
        let cidr = self.netmask.cidr();
        if cidr == 128 {
            None
        } else if cidr == 127 {
            Some(self.broadcast_addr())
        } else {
            Some(Ipv6Addr::from_bits(self.broadcast_addr().to_bits() - 1))
        }
    }

    /// Whether `addr` lies in the network; a /0 network holds every address.
    pub fn contains(&self, addr: Ipv6Addr) -> (r: bool)
        ensures
            r == in_network_v6(self@.0, self@.1, addr@),
    {
        proof { use_type_invariant(self); }
        let cidr = self.netmask.cidr();
        if cidr == 0 {
            assert(addr@ & 0 == self@.0 & 0) by (bit_vector);
            return true;
        }
        let shift = (128 - cidr) as u128;
        let network_bits = self.network_addr.to_bits() >> shift;
        let a_network_bits = addr.to_bits() >> shift;
        proof { lemma_prefix_shift_v6(self@.0, addr@, cidr); }
        network_bits == a_network_bits
    }
}

} // verus!
