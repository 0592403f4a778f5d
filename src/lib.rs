mod addr;
mod error;
mod netmask;
mod network;

pub use addr::{
    Ipv4Addr, Ipv6Addr, be_bytes_u128, be_bytes_u32, hextets_of, u128_from_be, u128_from_hextets,
    u32_from_be,
};
pub use error::NetmaskError;
pub use netmask::v4::{
    Ipv4Netmask, has_hole_v4, is_mask_v4, lemma_cidr_round_trip_v4, lemma_mask_v4_injective,
    lemma_mask_v4_patterns, mask_v4,
};
pub use netmask::Netmask;
pub use netmask::v6::{
    Ipv6Netmask, has_hole_v6, is_mask_v6, lemma_cidr_round_trip_v6, lemma_mask_v6_injective,
    lemma_mask_v6_patterns, mask_v6,
};
pub use network::iterator::{NetworkIterator, addr_range_v4};
pub use network::Network;
pub use network::v6::{
    Ipv6Network, broadcast_v6, in_network_v6, lemma_mask_idempotent_v6,
};
pub use network::v4::{Ipv4Network, broadcast_v4, in_network_v4, lemma_mask_idempotent_v4};
