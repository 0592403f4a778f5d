use vstd::prelude::*;

use crate::addr::Ipv4Addr;
use crate::netmask::v4::{Ipv4Netmask, mask_v4};
use crate::network::iterator::{NetworkIterator, addr_range_v4};

verus! {

/// `addr` lies in the network with base `network` and prefix length `cidr`: the two agree on
/// the first `cidr` bits.
pub open spec fn in_network_v4(network: u32, cidr: u8, addr: u32) -> bool {
    addr & mask_v4(cidr) == network & mask_v4(cidr)
}

/// The broadcast address of the network with base `network` and prefix length `cidr`.
pub open spec fn broadcast_v4(network: u32, cidr: u8) -> u32 {
    network | !mask_v4(cidr)
}

proof fn lemma_host_bits_room(n: u32, c: u8)
    by (bit_vector)
    requires
        c <= 32,
        n & mask_v4(c) == n,
    ensures
        c <= 30 ==> n < 0xffff_ffffu32,
        c < 32 ==> (n | !mask_v4(c)) > 0,
        n <= n | !mask_v4(c),
{
}

/// Masking an address a second time changes nothing: rebuilding a network from its own base
/// address gives the same base address.
pub proof fn lemma_mask_idempotent_v4(a: u32, c: u8)
    by (bit_vector)
    ensures
        (a & mask_v4(c)) & mask_v4(c) == a & mask_v4(c),
{
}

proof fn lemma_prefix_shift(n: u32, a: u32, c: u8)
    by (bit_vector)
    requires
        1 <= c <= 32,
    ensures
        ((n >> ((32 - c) as u32)) == (a >> ((32 - c) as u32))) == (a & mask_v4(c) == n & mask_v4(
            c,
        )),
{
}

proof fn lemma_common_prefix(x: u32, y: u32, lz: u32)
    by (bit_vector)
    requires
        lz <= 32,
        (x ^ y) >> ((32 - lz) as u32) == 0,
        lz < 32 ==> ((x ^ y) >> ((31 - lz) as u32)) & 1u32 != 0u32,
    ensures
        x & mask_v4(lz as u8) == y & mask_v4(lz as u8),
        forall|c: u8| lz < c <= 32 ==> x & #[trigger] mask_v4(c) != y & mask_v4(c),
{
}

/// An IPv4 network: a base address whose host bits are clear, and a netmask.
#[derive(Clone, Copy, PartialEq, Eq, Structural, Debug, Hash)]
pub struct Ipv4Network {
    network_addr: Ipv4Addr,
    netmask: Ipv4Netmask,
}

impl View for Ipv4Network {
    /// The base address and the prefix length.
    type V = (u32, u8);

    closed spec fn view(&self) -> (u32, u8) {
        (self.network_addr@, self.netmask@)
    }
}

impl Ipv4Network {
    #[verifier::type_invariant]
    spec fn inv(self) -> bool {
        &&& self.netmask@ <= 32
        &&& self.network_addr@ & mask_v4(self.netmask@) == self.network_addr@
    }

    pub fn netmask(&self) -> (r: Ipv4Netmask)
        ensures
            r@ == self@.1,
    {
        self.netmask
    }

    /// The network of `address` under `netmask`; the host bits of `address` are cleared.
    pub fn new(address: Ipv4Addr, netmask: Ipv4Netmask) -> (r: Self)
        ensures
            r@ == (address@ & mask_v4(netmask@), netmask@),
    {
        let cidr = netmask.cidr();
        let network_bits = address.to_bits() & netmask.to_bits();
        proof { lemma_mask_idempotent_v4(address@, cidr); }
        Ipv4Network { network_addr: Ipv4Addr::from_bits(network_bits), netmask }
    }

    /// The smallest network that holds both `first` and `last`: its prefix is the run of
    /// leading bits on which they agree.
    pub fn from_hosts(first: Ipv4Addr, last: Ipv4Addr) -> (r: Self)
        ensures
            r@.1 <= 32,
            r@.0 == first@ & mask_v4(r@.1),
            in_network_v4(r@.0, r@.1, first@),
            in_network_v4(r@.0, r@.1, last@),
            forall|c: u8|
                r@.1 < c <= 32 ==> !(first@ & #[trigger] mask_v4(c) == last@ & mask_v4(c)),
    {
        let xor_res = first.to_bits() ^ last.to_bits();
        let lz = xor_res.leading_zeros();
        proof {
            vstd::std_specs::bits::axiom_u32_leading_zeros(xor_res);
            lemma_common_prefix(first@, last@, lz);
            lemma_mask_idempotent_v4(first@, lz as u8);
        }
        let mask = Ipv4Netmask::from_cidr(lz as u8).unwrap();
        Self::new(first, mask)
    }

    /// The base address: the network's first address, with every host bit clear.
    pub fn network_addr(&self) -> (r: Ipv4Addr)
        ensures
            r@ == self@.0,
            r@ & mask_v4(self@.1) == r@,
    {
        proof { use_type_invariant(self); }
        self.network_addr
    }

    /// The address the network holds: its base address.
    pub fn address(&self) -> (r: Ipv4Addr)
        ensures
            r@ == self@.0,
    {
        self.network_addr
    }

    /// The network's last address, with every host bit set.
    pub fn broadcast_addr(&self) -> (r: Ipv4Addr)
        ensures
            r@ == broadcast_v4(self@.0, self@.1),
    {
        let addr_bits = self.network_addr.to_bits();
        let mask_bits = !self.netmask.to_bits();
        Ipv4Addr::from_bits(addr_bits | mask_bits)
    }

    /// The first usable host: none in a /32, the base address in a /31, else the one after it.
    pub fn min_host(&self) -> (r: Option<Ipv4Addr>)
        ensures
            match r {
                None => self@.1 == 32,
                Some(a) => self@.1 < 32 && a@ == if self@.1 == 31 {
                    self@.0
                } else {
                    (self@.0 + 1) as u32
                },
            },
    {
        proof {
            use_type_invariant(self);
            lemma_host_bits_room(self@.0, self@.1);
        }
        let cidr = self.netmask.cidr();
        if cidr == 32 {
            None
        } else if cidr == 31 {
            Some(self.network_addr())
        } else {
            Some(Ipv4Addr::from_bits(self.network_addr.to_bits() + 1))
        }
    }

    /// The last usable host: none in a /32, the broadcast address in a /31, else the one
    /// before it.
    pub fn max_host(&self) -> (r: Option<Ipv4Addr>)
        ensures
            match r {
                None => self@.1 == 32,
                Some(a) => self@.1 < 32 && a@ == if self@.1 == 31 {
                    broadcast_v4(self@.0, self@.1)
                } else {
                    (broadcast_v4(self@.0, self@.1) - 1) as u32
                },
            },
    {
        proof {
            use_type_invariant(self);
            lemma_host_bits_room(self@.0, self@.1);
        }
        let cidr = self.netmask.cidr();
        if cidr == 32 {
            None
        } else if cidr == 31 {
            Some(self.broadcast_addr())
        } else {
            Some(Ipv4Addr::from_bits(self.broadcast_addr().to_bits() - 1))
        }
    }

    /// Whether `addr` lies in the network; a /0 network holds every address.
    pub fn contains(&self, addr: Ipv4Addr) -> (r: bool)
        ensures
            r == in_network_v4(self@.0, self@.1, addr@),
    {
        proof { use_type_invariant(self); }
        let cidr = self.netmask.cidr();
        if cidr == 0 {
            assert(addr@ & 0 == self@.0 & 0) by (bit_vector);
            return true;
        }
        let shift = (32 - cidr) as u32;
        let network_bits = self.network_addr.to_bits() >> shift;
        let a_network_bits = addr.to_bits() >> shift;
        proof { lemma_prefix_shift(self@.0, addr@, cidr); }
        network_bits == a_network_bits
    }

    /// A cursor over every address of the network, from the base address to the broadcast
    /// address, both included.
    pub fn into_iter(self) -> (r: NetworkIterator)
        ensures
            r@ == addr_range_v4(self@.0, broadcast_v4(self@.0, self@.1)),
    {
        NetworkIterator::new(self.network_addr(), self.broadcast_addr())
    }
}

} // verus!
