use vstd::prelude::*;

verus! {

/// Why a netmask could not be built from the value given.
#[derive(Clone, Copy, PartialEq, Eq, Structural, Debug, Hash)]
pub enum NetmaskError {
    /// The prefix length is larger than the address width.
    InvalidPrefixLength,
    /// The bit pattern is not a run of ones followed by a run of zeros.
    NonContiguousMask,
}

} // verus!
