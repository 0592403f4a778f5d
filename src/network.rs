use vstd::prelude::*;

pub mod iterator;
pub mod v4;
pub mod v6;

use v4::Ipv4Network;
use v6::Ipv6Network;

verus! {

/// A network of either address family.
#[derive(Clone, Copy, PartialEq, Eq, Structural, Debug, Hash)]
pub enum Network {
    V4(Ipv4Network),
    V6(Ipv6Network),
}

} // verus!
