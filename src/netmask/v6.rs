use vstd::prelude::*;

use vstd::arithmetic::div_mod::lemma_fundamental_div_mod_converse;
use vstd::arithmetic::power2::{lemma2_to64, lemma_pow2_adds, pow2};
use vstd::bits::lemma_u128_shr_is_div;
use vstd::relations::injective_on;
use vstd::set_lib::{lemma_int_range, lemma_map_size, set_int_range};

use crate::addr::{
    be_bytes_u128, hextets_of, u128_from_be, u128_from_be_bytes, u128_from_hextets,
    u128_to_be_bytes,
};
use crate::error::NetmaskError;

verus! {

/// The 128-bit pattern whose `cidr` leading bits are set and whose other bits are clear.
pub open spec fn mask_v6(cidr: u8) -> u128 {
    if cidr == 0 {
        0
    } else {
        0xffff_ffff_ffff_ffff_ffff_ffff_ffff_ffffu128 << ((128 - cidr) as u32)
    }
}

/// `bits` is a valid IPv6 subnet mask: a run of ones followed by a run of zeros.
pub open spec fn is_mask_v6(bits: u128) -> bool {
    exists|cidr: u8| cidr <= 128 && #[trigger] mask_v6(cidr) == bits
}

/// The shape test on a raw pattern: zero, all ones, or a complement of the form `0..01..1`.
spec fn passes_shape_test_v6(bits: u128) -> bool {
    bits == 0 || bits == 0xffff_ffff_ffff_ffff_ffff_ffff_ffff_ffffu128 || (!bits) & (((!bits)
        + 1) as u128) == 0
}

proof fn lemma_mask_v6_passes_shape_test(cidr: u8)
    by (bit_vector)
    requires
        cidr <= 128,
    ensures
        passes_shape_test_v6(mask_v6(cidr)),
{
}

proof fn lemma_mask_v6_step(bits: u128, cidr: u8)
    by (bit_vector)
    requires
        cidr < 128,
        bits & mask_v6(cidr) == mask_v6(cidr),
        (bits >> ((127 - cidr) as u32)) & 1 == 1,
    ensures
        bits & mask_v6((cidr + 1) as u8) == mask_v6((cidr + 1) as u8),
{
}

proof fn lemma_shape_test_gives_mask_v6(bits: u128, cidr: u8)
    by (bit_vector)
    requires
        cidr <= 128,
        passes_shape_test_v6(bits),
        bits & mask_v6(cidr) == mask_v6(cidr),
        cidr == 128 || (bits >> ((127 - cidr) as u32)) & 1 != 1,
    ensures
        bits == mask_v6(cidr),
{
}

/// Distinct prefix lengths give distinct masks.
pub proof fn lemma_mask_v6_injective(a: u8, b: u8)
    by (bit_vector)
    requires
        a <= 128,
        b <= 128,
        mask_v6(a) == mask_v6(b),
    ensures
        a == b,
{
}

/// Going from a prefix length to its bit pattern and back gives the same prefix length: the
/// pattern of every length up to 128 is accepted, and no other length has that pattern.
pub proof fn lemma_cidr_round_trip_v6(cidr: u8)
    requires
        cidr <= 128,
    ensures
        is_mask_v6(mask_v6(cidr)),
        forall|c: u8| c <= 128 && #[trigger] mask_v6(c) == mask_v6(cidr) ==> c == cidr,
{
    assert forall|c: u8| c <= 128 && #[trigger] mask_v6(c) == mask_v6(cidr) implies c == cidr by {
        lemma_mask_v6_injective(c, cidr);
    }
}

/// The pattern has a clear bit above a set bit.
pub open spec fn has_hole_v6(bits: u128) -> bool {
    exists|i: u32, j: u32|
        i < j < 128 && (#[trigger] (bits >> i)) & 1 == 1 && (#[trigger] (bits >> j)) & 1 == 0
}

proof fn lemma_mask_v6_no_hole(cidr: u8, i: u32, j: u32)
    by (bit_vector)
    requires
        cidr <= 128,
        i < j < 128,
        (mask_v6(cidr) >> i) & 1 == 1,
    ensures
        (mask_v6(cidr) >> j) & 1 == 1,
{
}

/// A pattern with a hole is never a mask, and exactly 129 patterns are masks, one for each
/// prefix length from 0 to 128.
pub proof fn lemma_mask_v6_patterns(bits: u128)
    ensures
        has_hole_v6(bits) ==> !is_mask_v6(bits),
        Set::new(|b: u128| is_mask_v6(b)).finite(),
        Set::new(|b: u128| is_mask_v6(b)).len() == 129,
{
    if has_hole_v6(bits) && is_mask_v6(bits) {
        let (i, j) = choose|i: u32, j: u32|
            i < j < 128 && (#[trigger] (bits >> i)) & 1 == 1 && (#[trigger] (bits >> j)) & 1 == 0;
        let c = choose|c: u8| c <= 128 && #[trigger] mask_v6(c) == bits;
        lemma_mask_v6_no_hole(c, i, j);
    }
    let cidrs = set_int_range(0, 129);
    lemma_int_range(0, 129);
    let f = |c: int| mask_v6(c as u8);
    let masks = Set::new(|b: u128| is_mask_v6(b));
    assert forall|a: int, b: int| cidrs.contains(a) && cidrs.contains(b) && #[trigger] f(a) == #[trigger] f(b) implies a == b by {
        lemma_mask_v6_injective(a as u8, b as u8);
    }
    assert(injective_on(f, cidrs));
    assert forall|b: u128| masks.contains(b) <==> cidrs.map(f).contains(b) by {
        if masks.contains(b) {
            let c = choose|c: u8| c <= 128 && #[trigger] mask_v6(c) == b;
            assert(cidrs.contains(c as int) && f(c as int) == b);
        }
        if cidrs.map(f).contains(b) {
            let c = choose|c: int| cidrs.contains(c) && #[trigger] f(c) == b;
            assert(mask_v6(c as u8) == b);
        }
    }
    assert(masks =~= cidrs.map(f));
    lemma_map_size(cidrs, masks, f);
}

/// An IPv6 subnet mask, held as its prefix length.
#[derive(Clone, Copy, PartialEq, Eq, Structural, Debug, Hash)]
pub struct Ipv6Netmask {
    cidr: u8,
}

impl View for Ipv6Netmask {
    type V = u8;

    closed spec fn view(&self) -> u8 {
        self.cidr
    }
}

impl Ipv6Netmask {
    #[verifier::type_invariant]
    spec fn inv(self) -> bool {
        self.cidr <= 128
    }

    pub fn cidr(&self) -> (r: u8)
        ensures
            r == self@,
            r <= 128,
    {
        proof { use_type_invariant(self); }
        self.cidr
    }

    pub fn from_cidr(cidr: u8) -> (r: Result<Self, NetmaskError>)
        ensures
            match r {
                Ok(m) => cidr <= 128 && m@ == cidr,
                Err(e) => cidr > 128 && e == NetmaskError::InvalidPrefixLength,
            },
    {
        if cidr > 128 {
            return Err(NetmaskError::InvalidPrefixLength);
        }
        Ok(Ipv6Netmask { cidr })
    }

    pub fn to_bits(&self) -> (r: u128)
        ensures
            r == mask_v6(self@),
    {
        proof { use_type_invariant(self); }
        if self.cidr == 0 {
            0
        } else {
            0xffff_ffff_ffff_ffff_ffff_ffff_ffff_ffffu128 << ((128 - self.cidr) as u32)
        }
    }

    pub fn from_bits(bits: u128) -> (r: Result<Self, NetmaskError>)
        ensures
            match r {
                Ok(m) => m@ <= 128 && mask_v6(m@) == bits,
                Err(e) => !is_mask_v6(bits) && e == NetmaskError::NonContiguousMask,
            },
    {
        if bits != 0 && bits != 0xffff_ffff_ffff_ffff_ffff_ffff_ffff_ffffu128 {
            let inverse = !bits;
            assert(inverse < 0xffff_ffff_ffff_ffff_ffff_ffff_ffff_ffffu128) by (bit_vector)
                requires
                    bits != 0,
                    inverse == !bits,
            ;
            if inverse & (inverse + 1) != 0 {
                proof {
                    assert forall|c: u8| c <= 128 implies #[trigger] mask_v6(c) != bits by {
                        lemma_mask_v6_passes_shape_test(c);
                    }
                }
                return Err(NetmaskError::NonContiguousMask);
            }
        }
        assert(passes_shape_test_v6(bits));
        assert(bits & mask_v6(0) == mask_v6(0)) by (bit_vector);
        let mut cidr: u8 = 0;
        while cidr < 128 && (bits >> ((127 - cidr) as u32)) & 1 == 1
            invariant
                cidr <= 128,
                bits & mask_v6(cidr) == mask_v6(cidr),
            decreases 128 - cidr,
        {
            proof { lemma_mask_v6_step(bits, cidr); }
            cidr = cidr + 1;
        }
        proof { lemma_shape_test_gives_mask_v6(bits, cidr); }
        Ok(Ipv6Netmask { cidr })
    }

    /// The mask as sixteen bytes, most significant first.
    pub fn octets(&self) -> (r: [u8; 16])
        ensures
            r@ == be_bytes_u128(mask_v6(self@)),
    {
        u128_to_be_bytes(self.to_bits())
    }

    /// The mask as eight 16-bit groups, most significant first.
    pub fn hextets(&self) -> (r: [u16; 8])
        ensures
            r@ == hextets_of(be_bytes_u128(mask_v6(self@))),
    {
        let o = self.octets();
        let mut out = [0u16; 8];
        let mut i: usize = 0;
        while i < 8
            invariant
                i <= 8,
                o@ == be_bytes_u128(mask_v6(self@)),
                forall|k: int| 0 <= k < i ==> out@[k] == hextets_of(o@)[k],
            decreases 8 - i,
        {
            out[i] = ((o[2 * i] as u16) << 8u32) | (o[2 * i + 1] as u16);
            i = i + 1;
        }
        assert(out@ =~= hextets_of(o@));
        out
    }

    /// The mask whose bytes, most significant first, are `bytes`.
    pub fn from_octets(bytes: [u8; 16]) -> (r: Result<Self, NetmaskError>)
        ensures
            match r {
                Ok(m) => m@ <= 128 && mask_v6(m@) == u128_from_be(bytes@),
                Err(e) => !is_mask_v6(u128_from_be(bytes@)) && e
                    == NetmaskError::NonContiguousMask,
            },
    {
        Self::from_bits(u128_from_be_bytes(bytes))
    }

    /// The mask whose 16-bit groups, most significant first, are `groups`.
    pub fn from_hextets(groups: [u16; 8]) -> (r: Result<Self, NetmaskError>)
        ensures
            match r {
                Ok(m) => m@ <= 128 && mask_v6(m@) == u128_from_hextets(groups@),
                Err(e) => !is_mask_v6(u128_from_hextets(groups@)) && e
                    == NetmaskError::NonContiguousMask,
            },
    {
        let mut acc: u128 = 0;
        let mut i: usize = 0;
        while i < 8
            invariant
                i <= 8,
                acc == u128_from_hextets(groups@.take(i as int)),
            decreases 8 - i,
        {
            assert(groups@.take(i + 1).drop_last() =~= groups@.take(i as int));
            acc = (acc << 16u32) | (groups[i] as u128);
            i = i + 1;
        }
        assert(groups@.take(8) =~= groups@);
        Self::from_bits(acc)
    }

    /// The number of usable host addresses: `2^(128 - cidr) - 2`, and none for /127 and /128.
    pub fn host_num(&self) -> (r: u128)
        ensures
            r == if self@ >= 127 {
                0
            } else {
                pow2((128 - self@) as nat) - 2
            },
    {
        proof { use_type_invariant(self); }
        if self.cidr >= 127 {
            return 0;
        }
        let all: u128 = 0xffff_ffff_ffff_ffff_ffff_ffff_ffff_ffffu128;
        let ones = all >> (self.cidr as u32);
        proof {
            let c = self.cidr as nat;
            let k = (128 - c) as nat;
            lemma_u128_shr_is_div(all, self.cidr as u128);
            lemma2_to64();
            lemma_pow2_adds(64, 64);
            lemma_pow2_adds(c, k);
            assert(pow2(128) == pow2(c) * pow2(k));
            assert(all == pow2(128) - 1);
            assert(pow2(k) >= 4) by {
                lemma_pow2_adds(2, (k - 2) as nat);
                vstd::arithmetic::power2::lemma_pow2_pos((k - 2) as nat);
            }
            assert(all as int == (pow2(k) - 1) * pow2(c) + (pow2(c) - 1)) by (nonlinear_arith)
                requires
                    all as int == pow2(c) * pow2(k) - 1,
            ;
            vstd::arithmetic::power2::lemma_pow2_pos(c);
            lemma_fundamental_div_mod_converse(all as int, pow2(c) as int, pow2(k) - 1, pow2(c) - 1);
        }
        ones - 1
    }
}

} // verus!
