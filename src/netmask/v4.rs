use vstd::prelude::*;

use vstd::arithmetic::power2::{lemma_pow2_unfold, pow2};
use vstd::bits::lemma_u32_pow2_no_overflow;
use vstd::relations::injective_on;
use vstd::set_lib::{lemma_int_range, lemma_map_size, set_int_range};

use crate::addr::{be_bytes_u32, u32_from_be};
use crate::error::NetmaskError;

verus! {

/// The 32-bit pattern whose `cidr` leading bits are set and whose other bits are clear.
pub open spec fn mask_v4(cidr: u8) -> u32 {
    if cidr == 0 {
        0
    } else {
        0xffff_ffffu32 << ((32 - cidr) as u32)
    }
}

/// `bits` is a valid IPv4 subnet mask: a run of ones followed by a run of zeros.
pub open spec fn is_mask_v4(bits: u32) -> bool {
    exists|cidr: u8| cidr <= 32 && #[trigger] mask_v4(cidr) == bits
}

/// The shape test on a raw pattern: zero, all ones, or a complement of the form `0..01..1`.
spec fn passes_shape_test_v4(bits: u32) -> bool {
    bits == 0 || bits == 0xffff_ffffu32 || (!bits) & (((!bits) + 1) as u32) == 0
}

proof fn lemma_mask_v4_passes_shape_test(cidr: u8)
    by (bit_vector)
    requires
        cidr <= 32,
    ensures
        passes_shape_test_v4(mask_v4(cidr)),
{
}

proof fn lemma_mask_v4_step(bits: u32, cidr: u8)
    by (bit_vector)
    requires
        cidr < 32,
        bits & mask_v4(cidr) == mask_v4(cidr),
        (bits >> ((31 - cidr) as u32)) & 1 == 1,
    ensures
        bits & mask_v4((cidr + 1) as u8) == mask_v4((cidr + 1) as u8),
{
}

proof fn lemma_shape_test_gives_mask_v4(bits: u32, cidr: u8)
    by (bit_vector)
    requires
        cidr <= 32,
        passes_shape_test_v4(bits),
        bits & mask_v4(cidr) == mask_v4(cidr),
        cidr == 32 || (bits >> ((31 - cidr) as u32)) & 1 != 1,
    ensures
        bits == mask_v4(cidr),
{
}

/// Distinct prefix lengths give distinct masks.
pub proof fn lemma_mask_v4_injective(a: u8, b: u8)
    by (bit_vector)
    requires
        a <= 32,
        b <= 32,
        mask_v4(a) == mask_v4(b),
    ensures
        a == b,
{
}

/// Going from a prefix length to its bit pattern and back gives the same prefix length: the
/// pattern of every length up to 32 is accepted, and no other length has that pattern.
pub proof fn lemma_cidr_round_trip_v4(cidr: u8)
    requires
        cidr <= 32,
    ensures
        is_mask_v4(mask_v4(cidr)),
        forall|c: u8| c <= 32 && #[trigger] mask_v4(c) == mask_v4(cidr) ==> c == cidr,
{
    assert forall|c: u8| c <= 32 && #[trigger] mask_v4(c) == mask_v4(cidr) implies c == cidr by {
        lemma_mask_v4_injective(c, cidr);
    }
}

/// The pattern has a clear bit above a set bit.
pub open spec fn has_hole_v4(bits: u32) -> bool {
    exists|i: u32, j: u32|
        i < j < 32 && (#[trigger] (bits >> i)) & 1 == 1 && (#[trigger] (bits >> j)) & 1 == 0
}

proof fn lemma_mask_v4_no_hole(cidr: u8, i: u32, j: u32)
    by (bit_vector)
    requires
        cidr <= 32,
        i < j < 32,
        (mask_v4(cidr) >> i) & 1 == 1,
    ensures
        (mask_v4(cidr) >> j) & 1 == 1,
{
}

/// A pattern with a hole is never a mask, and exactly 33 patterns are masks, one for each
/// prefix length from 0 to 32.
pub proof fn lemma_mask_v4_patterns(bits: u32)
    ensures
        has_hole_v4(bits) ==> !is_mask_v4(bits),
        Set::new(|b: u32| is_mask_v4(b)).finite(),
        Set::new(|b: u32| is_mask_v4(b)).len() == 33,
{
    if has_hole_v4(bits) && is_mask_v4(bits) {
        let (i, j) = choose|i: u32, j: u32|
            i < j < 32 && (#[trigger] (bits >> i)) & 1 == 1 && (#[trigger] (bits >> j)) & 1 == 0;
        let c = choose|c: u8| c <= 32 && #[trigger] mask_v4(c) == bits;
        lemma_mask_v4_no_hole(c, i, j);
    }
    let cidrs = set_int_range(0, 33);
    lemma_int_range(0, 33);
    let f = |c: int| mask_v4(c as u8);
    let masks = Set::new(|b: u32| is_mask_v4(b));
    assert forall|a: int, b: int| cidrs.contains(a) && cidrs.contains(b) && #[trigger] f(a) == #[trigger] f(b) implies a == b by {
        lemma_mask_v4_injective(a as u8, b as u8);
    }
    assert(injective_on(f, cidrs));
    assert forall|b: u32| masks.contains(b) <==> cidrs.map(f).contains(b) by {
        if masks.contains(b) {
            let c = choose|c: u8| c <= 32 && #[trigger] mask_v4(c) == b;
            assert(cidrs.contains(c as int) && f(c as int) == b);
        }
        if cidrs.map(f).contains(b) {
            let c = choose|c: int| cidrs.contains(c) && #[trigger] f(c) == b;
            assert(mask_v4(c as u8) == b);
        }
    }
    assert(masks =~= cidrs.map(f));
    lemma_map_size(cidrs, masks, f);
}

/// An IPv4 subnet mask, held as its prefix length.
#[derive(Clone, Copy, PartialEq, Eq, Structural, Debug, Hash)]
pub struct Ipv4Netmask {
    cidr: u8,
}

impl View for Ipv4Netmask {
    type V = u8;

    closed spec fn view(&self) -> u8 {
        self.cidr
    }
}

impl Ipv4Netmask {
    #[verifier::type_invariant]
    spec fn inv(self) -> bool {
        self.cidr <= 32
    }

    pub fn cidr(&self) -> (r: u8)
        ensures
            r == self@,
            r <= 32,
    {
        proof { use_type_invariant(self); }
        self.cidr
    }

    pub fn from_cidr(cidr: u8) -> (r: Result<Self, NetmaskError>)
        ensures
            match r {
                Ok(m) => cidr <= 32 && m@ == cidr,
                Err(e) => cidr > 32 && e == NetmaskError::InvalidPrefixLength,
            },
    {
        if cidr > 32 {
            return Err(NetmaskError::InvalidPrefixLength);
        }
        Ok(Ipv4Netmask { cidr })
    }

    pub fn to_bits(&self) -> (r: u32)
        ensures
            r == mask_v4(self@),
    {
        proof { use_type_invariant(self); }
        if self.cidr == 0 {
            0
        } else {
            0xffff_ffffu32 << ((32 - self.cidr) as u32)
        }
    }

    pub fn from_bits(bits: u32) -> (r: Result<Self, NetmaskError>)
        ensures
            match r {
                Ok(m) => m@ <= 32 && mask_v4(m@) == bits,
                Err(e) => !is_mask_v4(bits) && e == NetmaskError::NonContiguousMask,
            },
    {
        if bits != 0 && bits != 0xffff_ffffu32 {
            let inverse = !bits;
            assert(inverse < 0xffff_ffffu32) by (bit_vector)
                requires
                    bits != 0,
                    inverse == !bits,
            ;
            if inverse & (inverse + 1) != 0 {
                proof {
                    assert forall|c: u8| c <= 32 implies #[trigger] mask_v4(c) != bits by {
                        lemma_mask_v4_passes_shape_test(c);
                    }
                }
                return Err(NetmaskError::NonContiguousMask);
            }
        }
        assert(passes_shape_test_v4(bits));
        assert(bits & mask_v4(0) == mask_v4(0)) by (bit_vector);
        let mut cidr: u8 = 0;
        while cidr < 32 && (bits >> ((31 - cidr) as u32)) & 1 == 1
            invariant
                cidr <= 32,
                bits & mask_v4(cidr) == mask_v4(cidr),
            decreases 32 - cidr,
        {
            proof { lemma_mask_v4_step(bits, cidr); }
            cidr = cidr + 1;
        }
        proof { lemma_shape_test_gives_mask_v4(bits, cidr); }
        Ok(Ipv4Netmask { cidr })
    }

    pub fn as_cidr(&self) -> (r: &u8)
        ensures
            *r == self@,
            *r <= 32,
    {
        proof { use_type_invariant(self); }
        &self.cidr
    }

    /// The mask as four bytes, most significant first.
    pub fn octets(&self) -> (r: [u8; 4])
        ensures
            r@ == be_bytes_u32(mask_v4(self@)),
    {
        let b = self.to_bits();
        let r = [(b >> 24u32) as u8, (b >> 16u32) as u8, (b >> 8u32) as u8, b as u8];
        assert(r@ =~= be_bytes_u32(b));
        r
    }

    /// The mask as four bytes, most significant first; the same as `octets`.
    pub fn to_bytes(&self) -> (r: [u8; 4])
        ensures
            r@ == be_bytes_u32(mask_v4(self@)),
    {
        self.octets()
    }

    /// The host part of the mask: the complement of its bits.
    pub fn wildcard(&self) -> (r: u32)
        ensures
            r == !mask_v4(self@),
    {
        !self.to_bits()
    }

    /// The mask whose bytes, most significant first, are `a.b.c.d`.
    pub fn new(a: u8, b: u8, c: u8, d: u8) -> (r: Result<Self, NetmaskError>)
        ensures
            match r {
                Ok(m) => m@ <= 32 && mask_v4(m@) == u32_from_be(seq![a, b, c, d]),
                Err(e) => !is_mask_v4(u32_from_be(seq![a, b, c, d])) && e
                    == NetmaskError::NonContiguousMask,
            },
    {
        Self::from_octets([a, b, c, d])
    }

    /// The mask whose bytes, most significant first, are `bytes`.
    pub fn from_octets(bytes: [u8; 4]) -> (r: Result<Self, NetmaskError>)
        ensures
            match r {
                Ok(m) => m@ <= 32 && mask_v4(m@) == u32_from_be(bytes@),
                Err(e) => !is_mask_v4(u32_from_be(bytes@)) && e == NetmaskError::NonContiguousMask,
            },
    {
        let bits = ((bytes[0] as u32) << 24u32) | ((bytes[1] as u32) << 16u32) | ((bytes[2] as u32)
            << 8u32) | (bytes[3] as u32);
        Self::from_bits(bits)
    }

    /// The mask whose bytes, most significant first, are `bytes`; the same as `from_octets`.
    pub fn from_bytes(bytes: [u8; 4]) -> (r: Result<Self, NetmaskError>)
        ensures
            match r {
                Ok(m) => m@ <= 32 && mask_v4(m@) == u32_from_be(bytes@),
                Err(e) => !is_mask_v4(u32_from_be(bytes@)) && e == NetmaskError::NonContiguousMask,
            },
    {
        Self::from_octets(bytes)
    }

    /// The number of usable host addresses: `2^(32 - cidr) - 2`, and none for /31 and /32.
    pub fn host_num(&self) -> (r: u64)
        ensures
            r == if self@ >= 31 {
                0
            } else {
                pow2((32 - self@) as nat) - 2
            },
    {
        proof { use_type_invariant(self); }
        if self.cidr >= 31 {
            return 0;
        }
        let exp: u8 = 32 - self.cidr;
        let mut p: u64 = 1;
        let mut i: u8 = 0;
        proof { vstd::arithmetic::power2::lemma2_to64(); }
        while i < exp
            invariant
                i <= exp <= 32,
                p == pow2(i as nat),
                i >= 1 ==> p >= 2,
            decreases exp - i,
        {
            proof {
                lemma_pow2_unfold((i + 1) as nat);
                lemma_u32_pow2_no_overflow(i as nat);
            }
            p = p * 2;
            i = i + 1;
        }
        p - 2
    }
}

} // verus!
