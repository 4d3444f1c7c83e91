//! Verified engine for enriching columns of IP-address text with metadata
//! looked up in binary databases, and for testing columns of addresses
//! against sets of CIDR ranges.

pub mod geoip;
pub mod ip;
pub mod ip6;
pub mod iptools;
pub mod maxmind;
pub mod mmdb;
pub mod record;
pub mod spur;
pub mod spurdb;
pub mod strutil;
pub mod tokens;
pub mod trie;
pub mod utils;
