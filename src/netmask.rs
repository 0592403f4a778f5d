use vstd::prelude::*;

pub mod v4;
pub mod v6;

use v4::Ipv4Netmask;
use v6::Ipv6Netmask;

verus! {

/// A subnet mask of either address family.
#[derive(Clone, Copy, PartialEq, Eq, Structural, Debug, Hash)]
pub enum Netmask {
    V4(Ipv4Netmask),
    V6(Ipv6Netmask),
}

} // verus!
