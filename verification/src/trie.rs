//! Trusted boundary to the compressed prefix tries that answer CIDR
//! membership. The tries are held behind opaque structs, because their types
//! cannot be declared to the verifier; what each one holds is modeled as a
//! set of normalized prefix pairs, and every wrapper's contract speaks over
//! that set.

use iptrie::IpPrefix;
use vstd::prelude::*;

verus! {

/// The covering mask of an IPv4 prefix length: its high `len` bits set.
pub open spec fn mask4(len: u8) -> u32 {
    if len == 0 {
        0u32
    } else if len >= 32 {
        0xffff_ffffu32
    } else {
        (0xffff_ffffu32 << ((32 - len) as u32)) as u32
    }
}

/// The covering mask of an IPv6 prefix length: its high `len` bits set.
pub open spec fn mask6(len: u8) -> u128 {
    if len == 0 {
        0u128
    } else if len >= 128 {
        0xffff_ffff_ffff_ffff_ffff_ffff_ffff_ffffu128
    } else {
        (0xffff_ffff_ffff_ffff_ffff_ffff_ffff_ffffu128 << ((128 - len) as u128)) as u128
    }
}

/// An IPv4 prefix pair with the bits beyond the prefix length cleared.
pub open spec fn norm4(addr: u32, len: u8) -> (u32, u8) {
    ((addr & mask4(len)), len)
}

/// An IPv6 prefix pair with the bits beyond the prefix length cleared.
pub open spec fn norm6(addr: u128, len: u8) -> (u128, u8) {
    ((addr & mask6(len)), len)
}

/// The prefix pair `p` covers the address `q`: they agree on the prefix's
/// leading bits.
pub open spec fn covers4(p: (u32, u8), q: u32) -> bool {
    p.1 <= 32 && (q & mask4(p.1)) == p.0
}

/// The prefix pair `p` covers the address `q`.
pub open spec fn covers6(p: (u128, u8), q: u128) -> bool {
    p.1 <= 128 && (q & mask6(p.1)) == p.0
}

/// A radix trie set of IPv4 prefixes, opaque to the verifier.
#[verifier::external_body]
pub struct Rtrie4 {
    inner: iptrie::Ipv4RTrieSet,
}

/// A radix trie set of IPv6 prefixes, opaque to the verifier.
#[verifier::external_body]
pub struct Rtrie6 {
    inner: iptrie::Ipv6RTrieSet,
}

/// A compressed, frozen trie set of IPv4 prefixes, opaque to the verifier.
#[verifier::external_body]
pub struct Lctrie4 {
    inner: iptrie::Ipv4LCTrieSet,
}

/// A compressed, frozen trie set of IPv6 prefixes, opaque to the verifier.
#[verifier::external_body]
pub struct Lctrie6 {
    inner: iptrie::Ipv6LCTrieSet,
}

/// The normalized prefix pairs a radix trie set holds.
pub uninterp spec fn rtrie4_contents(t: Rtrie4) -> Set<(u32, u8)>;

pub uninterp spec fn rtrie6_contents(t: Rtrie6) -> Set<(u128, u8)>;

/// The normalized prefix pairs a compressed trie set holds.
pub uninterp spec fn lctrie4_contents(t: Lctrie4) -> Set<(u32, u8)>;

pub uninterp spec fn lctrie6_contents(t: Lctrie6) -> Set<(u128, u8)>;

/// Relies on iptrie::RTrieSet::new: a fresh set holds exactly the root
/// prefix.
#[verifier::external_body]
pub fn rtrie4_new() -> (t: Rtrie4)
    ensures
        rtrie4_contents(t) == Set::<(u32, u8)>::empty().insert((0u32, 0u8)),
{
    Rtrie4 { inner: iptrie::Ipv4RTrieSet::new() }
}

/// Relies on iptrie::RTrieSet::new: a fresh set holds exactly the root
/// prefix.
#[verifier::external_body]
pub fn rtrie6_new() -> (t: Rtrie6)
    ensures
        rtrie6_contents(t) == Set::<(u128, u8)>::empty().insert((0u128, 0u8)),
{
    Rtrie6 { inner: iptrie::Ipv6RTrieSet::new() }
}

/// Relies on iptrie::Ipv4Prefix::new and RTrieSet::insert: the prefix, its
/// trailing bits cleared, joins the set; inserting an element already
/// present leaves the set as it stands.
#[verifier::external_body]
pub fn rtrie4_insert(t: &mut Rtrie4, addr: u32, len: u8)
    requires
        len <= 32,
    ensures
        rtrie4_contents(*final(t)) == rtrie4_contents(*old(t)).insert(norm4(addr, len)),
{
    if let Ok(p) = iptrie::Ipv4Prefix::new(core::net::Ipv4Addr::from(addr), len) {
        let _ = t.inner.insert(p);
    }
}

/// Relies on iptrie::Ipv6Prefix::new and RTrieSet::insert: the prefix, its
/// trailing bits cleared, joins the set.
#[verifier::external_body]
pub fn rtrie6_insert(t: &mut Rtrie6, addr: u128, len: u8)
    requires
        len <= 128,
    ensures
        rtrie6_contents(*final(t)) == rtrie6_contents(*old(t)).insert(norm6(addr, len)),
{
    if let Ok(p) = iptrie::Ipv6Prefix::new(core::net::Ipv6Addr::from(addr), len) {
        let _ = t.inner.insert(p);
    }
}

/// Relies on iptrie::RTrieSet::compress: compaction reorganizes the trie and
/// keeps exactly the same prefixes.
#[verifier::external_body]
pub fn rtrie4_compress(t: Rtrie4) -> (c: Lctrie4)
    ensures
        lctrie4_contents(c) == rtrie4_contents(t),
{
    Lctrie4 { inner: t.inner.compress() }
}

/// Relies on iptrie::RTrieSet::compress: compaction keeps exactly the same
/// prefixes.
#[verifier::external_body]
pub fn rtrie6_compress(t: Rtrie6) -> (c: Lctrie6)
    ensures
        lctrie6_contents(c) == rtrie6_contents(t),
{
    Lctrie6 { inner: t.inner.compress() }
}

/// Relies on iptrie::LCTrieSet::lookup: yields the longest prefix in the set
/// that covers the address; the root prefix always covers, so the lookup
/// never fails.
#[verifier::external_body]
pub fn lctrie4_lookup(t: &Lctrie4, addr: u32) -> (r: (u32, u8))
    ensures
        lctrie4_contents(*t).contains(r),
        covers4(r, addr),
        forall|p: (u32, u8)|
            lctrie4_contents(*t).contains(p) && covers4(p, addr) ==> p.1 <= r.1,
{
    let q = core::net::Ipv4Addr::from(addr);
    let p = t.inner.lookup(&q);
    (u32::from(p.network()), p.len())
}

/// Relies on iptrie::LCTrieSet::lookup: yields the longest prefix in the set
/// that covers the address.
#[verifier::external_body]
pub fn lctrie6_lookup(t: &Lctrie6, addr: u128) -> (r: (u128, u8))
    ensures
        lctrie6_contents(*t).contains(r),
        covers6(r, addr),
        forall|p: (u128, u8)|
            lctrie6_contents(*t).contains(p) && covers6(p, addr) ==> p.1 <= r.1,
{
    let q = core::net::Ipv6Addr::from(addr);
    let p = t.inner.lookup(&q);
    (u128::from(p.network()), p.len())
}

} // verus!
