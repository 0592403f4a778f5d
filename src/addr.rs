use vstd::prelude::*;

verus! {

/// The four bytes of `bits`, most significant first.
pub open spec fn be_bytes_u32(bits: u32) -> Seq<u8> {
    seq![(bits >> 24u32) as u8, (bits >> 16u32) as u8, (bits >> 8u32) as u8, bits as u8]
}

/// The 32-bit value whose bytes, most significant first, are `b[0..4]`.
pub open spec fn u32_from_be(b: Seq<u8>) -> u32 {
    ((b[0] as u32) << 24u32) | ((b[1] as u32) << 16u32) | ((b[2] as u32) << 8u32) | (b[3] as u32)
}

/// The sixteen bytes of `bits`, most significant first.
pub open spec fn be_bytes_u128(bits: u128) -> Seq<u8> {
    Seq::new(16, |i: int| (bits >> ((8 * (15 - i)) as u32)) as u8)
}

/// The value whose bytes, most significant first, are `b`.
pub open spec fn u128_from_be(b: Seq<u8>) -> u128
    decreases b.len(),
{
    if b.len() == 0 {
        0
    } else {
        (u128_from_be(b.drop_last()) << 8u32) | (b.last() as u128)
    }
}

/// The value whose 16-bit groups, most significant first, are `h`.
pub open spec fn u128_from_hextets(h: Seq<u16>) -> u128
    decreases h.len(),
{
    if h.len() == 0 {
        0
    } else {
        (u128_from_hextets(h.drop_last()) << 16u32) | (h.last() as u128)
    }
}

/// The 16-bit groups made of consecutive byte pairs of `b`, the first byte of each pair the
/// more significant.
pub open spec fn hextets_of(b: Seq<u8>) -> Seq<u16> {
    Seq::new(8, |i: int| ((b[2 * i] as u16) << 8u32) | (b[2 * i + 1] as u16))
}

/// Splits `bits` into sixteen bytes, most significant first.
pub fn u128_to_be_bytes(bits: u128) -> (r: [u8; 16])
    ensures
        r@ == be_bytes_u128(bits),
{
    let mut out = [0u8; 16];
    let mut i: usize = 0;
    while i < 16
        invariant
            i <= 16,
            forall|k: int| 0 <= k < i ==> out@[k] == be_bytes_u128(bits)[k],
        decreases 16 - i,
    {
        out[i] = (bits >> ((8 * (15 - i)) as u32)) as u8;
        i = i + 1;
    }
    assert(out@ =~= be_bytes_u128(bits));
    out
}

/// Joins sixteen bytes, most significant first, into one value.
pub fn u128_from_be_bytes(bytes: [u8; 16]) -> (r: u128)
    ensures
        r == u128_from_be(bytes@),
{
    let mut acc: u128 = 0;
    let mut i: usize = 0;
    while i < 16
        invariant
            i <= 16,
            acc == u128_from_be(bytes@.take(i as int)),
        decreases 16 - i,
    {
        assert(bytes@.take(i + 1).drop_last() =~= bytes@.take(i as int));
        acc = (acc << 8u32) | (bytes[i] as u128);
        i = i + 1;
    }
    assert(bytes@.take(16) =~= bytes@);
    acc
}

/// An IPv6 address, held as its 128-bit big-endian value.
#[derive(Clone, Copy, PartialEq, Eq, Structural, Debug, Hash)]
pub struct Ipv6Addr {
    bits: u128,
}

impl View for Ipv6Addr {
    type V = u128;

    closed spec fn view(&self) -> u128 {
        self.bits
    }
}

impl Ipv6Addr {
    pub fn from_bits(bits: u128) -> (r: Self)
        ensures
            r@ == bits,
    {
        Ipv6Addr { bits }
    }

    pub fn to_bits(&self) -> (r: u128)
        ensures
            r == self@,
    {
        self.bits
    }

    /// The sixteen bytes of the address, most significant first.
    pub fn octets(&self) -> (r: [u8; 16])
        ensures
            r@ == be_bytes_u128(self@),
    {
        u128_to_be_bytes(self.bits)
    }
}

/// An IPv4 address, held as its 32-bit big-endian value.
#[derive(Clone, Copy, PartialEq, Eq, Structural, Debug, Hash)]
pub struct Ipv4Addr {
    bits: u32,
}

impl View for Ipv4Addr {
    type V = u32;

    closed spec fn view(&self) -> u32 {
        self.bits
    }
}

impl Ipv4Addr {
    /// The address `a.b.c.d`.
    pub fn new(a: u8, b: u8, c: u8, d: u8) -> (r: Self)
        ensures
            r@ == u32_from_be(seq![a, b, c, d]),
    {
        let bits = ((a as u32) << 24u32) | ((b as u32) << 16u32) | ((c as u32) << 8u32) | (d as u32);
        Ipv4Addr { bits }
    }

    pub fn from_bits(bits: u32) -> (r: Self)
        ensures
            r@ == bits,
    {
        Ipv4Addr { bits }
    }

    pub fn to_bits(&self) -> (r: u32)
        ensures
            r == self@,
    {
        self.bits
    }

    /// The four bytes of the address, most significant first.
    pub fn octets(&self) -> (r: [u8; 4])
        ensures
            r@ == be_bytes_u32(self@),
    {
        let b = self.bits;
        let r = [(b >> 24u32) as u8, (b >> 16u32) as u8, (b >> 8u32) as u8, b as u8];
        assert(r@ =~= be_bytes_u32(b));
        r
    }
}

} // verus!
