//! Address utilities over columns, and CIDR-set membership: validity and
//! private-range tests, the numeric round trip for IPv4 text, and the
//! call-scoped membership index built from a column of range literals and
//! queried by a column of addresses.

use vstd::prelude::*;
use vstd::string::StringExecFns;
use vstd::utf8::encode_utf8;

use crate::ip::{
    format_ipv4_bytes, ipv4_is_private, lemma_ipv4_round_trip, parse_ipv4_bytes,
    spec_format_ipv4, spec_ipv4_is_private, spec_parse_ipv4, IpAddress,
};
use crate::ip6::{parse_ip, parse_ip_bytes, spec_parse_ip};
use crate::strutil::{ascii_chars, ascii_to_string, string_bytes};
use crate::tokens::{find_byte, find_from, prefix_len_val, scan_prefix_len, BYTE_SLASH};
use crate::trie::{
    covers4, covers6, lctrie4_contents, lctrie4_lookup, lctrie6_contents, lctrie6_lookup,
    norm4, norm6, rtrie4_compress, rtrie4_insert, rtrie4_new, rtrie6_compress, rtrie6_insert,
    rtrie6_new, Lctrie4, Lctrie6,
};

verus! {

/// What the validity column owes each row.
pub open spec fn spec_valid_row(input: Option<String>) -> Option<bool> {
    match input {
        None => None,
        Some(s) => Some(spec_parse_ip(encode_utf8(s@)) is Some),
    }
}

/// Marks each row of a column of text as a valid IPv4 or IPv6 address or
/// not; null rows stay null.
#[verifier::loop_isolation(false)]
pub fn pl_is_valid(rows: &Vec<Option<String>>) -> (r: Vec<Option<bool>>)
    ensures
        r@.len() == rows@.len(),
        forall|i: int| 0 <= i < rows@.len() ==> #[trigger] r@[i] == spec_valid_row(rows@[i]),
{
    let mut out: Vec<Option<bool>> = Vec::with_capacity(rows.len());
    let mut i: usize = 0;
    while i < rows.len()
        invariant
            0 <= i <= rows@.len(),
            out@.len() == i,
            forall|j: int| 0 <= j < i ==> #[trigger] out@[j] == spec_valid_row(rows@[j]),
        decreases rows@.len() - i,
    {
        match &rows[i] {
            Some(s) => out.push(Some(parse_ip(s.as_str()).is_some())),
            None => out.push(None),
        }
        i = i + 1;
    }
    out
}

/// What the private-range column owes each row: a row that is not a valid
/// IPv4 address reads as not private.
pub open spec fn spec_private_row(input: Option<String>) -> Option<bool> {
    match input {
        None => None,
        Some(s) => Some(
            match spec_parse_ipv4(encode_utf8(s@)) {
                Some(n) => spec_ipv4_is_private(n),
                None => false,
            },
        ),
    }
}

/// Marks each row of a column of text as a private IPv4 address or not;
/// anything that is not dotted-quad text of a private range, IPv6 text
/// included, reads as not private. Null rows stay null.
#[verifier::loop_isolation(false)]
pub fn pl_is_private(rows: &Vec<Option<String>>) -> (r: Vec<Option<bool>>)
    ensures
        r@.len() == rows@.len(),
        forall|i: int| 0 <= i < rows@.len() ==> #[trigger] r@[i] == spec_private_row(rows@[i]),
{
    let mut out: Vec<Option<bool>> = Vec::with_capacity(rows.len());
    let mut i: usize = 0;
    while i < rows.len()
        invariant
            0 <= i <= rows@.len(),
            out@.len() == i,
            forall|j: int| 0 <= j < i ==> #[trigger] out@[j] == spec_private_row(rows@[j]),
        decreases rows@.len() - i,
    {
        match &rows[i] {
            Some(s) => match parse_ipv4_bytes(s.as_str().as_bytes()) {
                Some(n) => out.push(Some(ipv4_is_private(n))),
                None => out.push(Some(false)),
            },
            None => out.push(None),
        }
        i = i + 1;
    }
    out
}

/// What the numeric column owes each row: the 32-bit value of dotted-quad
/// text, null for anything else.
pub open spec fn spec_numeric_row(input: Option<String>) -> Option<u32> {
    match input {
        None => None,
        Some(s) => spec_parse_ipv4(encode_utf8(s@)),
    }
}

/// Converts each row of IPv4 text to its numeric value; text that is not a
/// valid IPv4 address becomes null, and null rows stay null.
#[verifier::loop_isolation(false)]
pub fn pl_ipv4_to_numeric(rows: &Vec<Option<String>>) -> (r: Vec<Option<u32>>)
    ensures
        r@.len() == rows@.len(),
        forall|i: int| 0 <= i < rows@.len() ==> #[trigger] r@[i] == spec_numeric_row(rows@[i]),
{
    let mut out: Vec<Option<u32>> = Vec::with_capacity(rows.len());
    let mut i: usize = 0;
    while i < rows.len()
        invariant
            0 <= i <= rows@.len(),
            out@.len() == i,
            forall|j: int| 0 <= j < i ==> #[trigger] out@[j] == spec_numeric_row(rows@[j]),
        decreases rows@.len() - i,
    {
        match &rows[i] {
            Some(s) => out.push(parse_ipv4_bytes(s.as_str().as_bytes())),
            None => out.push(None),
        }
        i = i + 1;
    }
    out
}

/// What the text column owes each numeric row.
pub open spec fn spec_ipv4_text_row(input: Option<u32>, out: Option<String>) -> bool {
    match input {
        None => out is None,
        Some(n) => out matches Some(t) && t@ == ascii_chars(spec_format_ipv4(n))
            && string_bytes(t) == spec_format_ipv4(n),
    }
}

/// Converts each numeric row to canonical dotted-quad text; null rows stay
/// null. Every 32-bit value stands for some address, so no row fails. The
/// text parses back to the same value.
#[verifier::loop_isolation(false)]
pub fn pl_numeric_to_ipv4(rows: &Vec<Option<u32>>) -> (r: Vec<Option<String>>)
    ensures
        r@.len() == rows@.len(),
        forall|i: int|
            0 <= i < rows@.len() ==> spec_ipv4_text_row(rows@[i], #[trigger] r@[i]),
        forall|i: int|
            0 <= i < rows@.len() ==> (rows@[i] matches Some(n) ==> ((#[trigger] r@[i]) matches
                Some(t) && spec_parse_ipv4(string_bytes(t)) == Some(n))),
{
    let mut out: Vec<Option<String>> = Vec::with_capacity(rows.len());
    let mut i: usize = 0;
    while i < rows.len()
        invariant
            0 <= i <= rows@.len(),
            out@.len() == i,
            forall|j: int| 0 <= j < i ==> spec_ipv4_text_row(rows@[j], #[trigger] out@[j]),
        decreases rows@.len() - i,
    {
        match &rows[i] {
            Some(n) => {
                let bytes = format_ipv4_bytes(*n);
                out.push(Some(ascii_to_string(bytes)));
            },
            None => out.push(None),
        }
        i = i + 1;
    }
    proof {
        assert forall|i: int|
            0 <= i < rows@.len() implies (rows@[i] matches Some(n) ==> ((#[trigger] out@[i])
            matches Some(t) && spec_parse_ipv4(string_bytes(t)) == Some(n))) by {
            if let Some(n) = rows@[i] {
                lemma_ipv4_round_trip(n);
            }
        }
    }
    out
}

/// One parsed CIDR range: an address of either family and a prefix length.
#[derive(Debug, Clone, Copy, PartialEq, Eq, Structural)]
pub enum CidrRange {
    V4(u32, u8),
    V6(u128, u8),
}

/// Parses a range literal: an address of either family, one `/`, and a
/// prefix length of one to three decimal digits within the family's bound.
pub open spec fn spec_parse_cidr(s: Seq<u8>) -> Option<CidrRange> {
    let p = find_from(s, 0, BYTE_SLASH);
    if p < s.len() && find_from(s, p + 1, BYTE_SLASH) == s.len() {
        match spec_parse_ip(s.subrange(0, p)) {
            Some(IpAddress::V4(a)) => match prefix_len_val(
                s.subrange(p + 1, s.len() as int),
                32,
            ) {
                Some(l) => Some(CidrRange::V4(a, l)),
                None => None,
            },
            Some(IpAddress::V6(a)) => match prefix_len_val(
                s.subrange(p + 1, s.len() as int),
                128,
            ) {
                Some(l) => Some(CidrRange::V6(a, l)),
                None => None,
            },
            None => None,
        }
    } else {
        None
    }
}

/// Parses a range literal from bytes.
pub fn parse_cidr_bytes(s: &[u8]) -> (r: Option<CidrRange>)
    ensures
        r == spec_parse_cidr(s@),
{
    let len: usize = s.len();
    let p = find_byte(s, 0, BYTE_SLASH);
    if p >= len {
        return None;
    }
    let p2 = find_byte(s, p + 1, BYTE_SLASH);
    if p2 < len {
        return None;
    }
    match parse_ip_bytes(&s[0..p]) {
        Some(IpAddress::V4(a)) => match scan_prefix_len(s, p + 1, len, 32) {
            Some(l) => Some(CidrRange::V4(a, l)),
            None => None,
        },
        Some(IpAddress::V6(a)) => match scan_prefix_len(s, p + 1, len, 128) {
            Some(l) => Some(CidrRange::V6(a, l)),
            None => None,
        },
        None => None,
    }
}

/// The normalized IPv4 prefixes of a range list, root prefix included.
pub open spec fn v4_set(rs: Seq<CidrRange>) -> Set<(u32, u8)> {
    Set::new(
        |p: (u32, u8)|
            p == (0u32, 0u8) || exists|i: int|
                #![trigger rs[i]]
                {
                    &&& 0 <= i < rs.len()
                    &&& rs[i] matches CidrRange::V4(a, l)
                    &&& p == norm4(a, l)
                },
    )
}

/// The normalized IPv6 prefixes of a range list, root prefix included.
pub open spec fn v6_set(rs: Seq<CidrRange>) -> Set<(u128, u8)> {
    Set::new(
        |p: (u128, u8)|
            p == (0u128, 0u8) || exists|i: int|
                #![trigger rs[i]]
                {
                    &&& 0 <= i < rs.len()
                    &&& rs[i] matches CidrRange::V6(a, l)
                    &&& p == norm6(a, l)
                },
    )
}

/// The range list holds an IPv4 range of prefix length zero, which covers
/// every IPv4 address.
pub open spec fn has_default4(rs: Seq<CidrRange>) -> bool {
    exists|i: int|
        #![trigger rs[i]]
        {
            &&& 0 <= i < rs.len()
            &&& rs[i] matches CidrRange::V4(a, l)
            &&& l == 0
        }
}

pub open spec fn has_default6(rs: Seq<CidrRange>) -> bool {
    exists|i: int|
        #![trigger rs[i]]
        {
            &&& 0 <= i < rs.len()
            &&& rs[i] matches CidrRange::V6(a, l)
            &&& l == 0
        }
}

/// At least one IPv4 range of the list covers the address.
pub open spec fn spec_matches4(rs: Seq<CidrRange>, q: u32) -> bool {
    exists|i: int|
        #![trigger rs[i]]
        {
            &&& 0 <= i < rs.len()
            &&& rs[i] matches CidrRange::V4(a, l)
            &&& covers4(norm4(a, l), q)
        }
}

/// At least one IPv6 range of the list covers the address.
pub open spec fn spec_matches6(rs: Seq<CidrRange>, q: u128) -> bool {
    exists|i: int|
        #![trigger rs[i]]
        {
            &&& 0 <= i < rs.len()
            &&& rs[i] matches CidrRange::V6(a, l)
            &&& covers6(norm6(a, l), q)
        }
}

/// An IPv4 address never matches a list without IPv4 ranges: family
/// mismatch never matches.
pub proof fn lemma_v4_family_mismatch(rs: Seq<CidrRange>, q: u32)
    requires
        forall|i: int| 0 <= i < rs.len() ==> !((#[trigger] rs[i]) is V4),
    ensures
        !spec_matches4(rs, q),
{
}

/// An IPv6 address never matches a list without IPv6 ranges: family
/// mismatch never matches.
pub proof fn lemma_v6_family_mismatch(rs: Seq<CidrRange>, q: u128)
    requires
        forall|i: int| 0 <= i < rs.len() ==> !((#[trigger] rs[i]) is V6),
    ensures
        !spec_matches6(rs, q),
{
}

/// Appending an IPv4 range adds its normalized prefix to the IPv4 set and
/// leaves the IPv6 side untouched.
proof fn lemma_sets_push_v4(rs: Seq<CidrRange>, a: u32, l: u8)
    ensures
        v4_set(rs.push(CidrRange::V4(a, l))) == v4_set(rs).insert(norm4(a, l)),
        v6_set(rs.push(CidrRange::V4(a, l))) == v6_set(rs),
        has_default4(rs.push(CidrRange::V4(a, l))) == (has_default4(rs) || l == 0),
        has_default6(rs.push(CidrRange::V4(a, l))) == has_default6(rs),
{
    let r = CidrRange::V4(a, l);
    let rs2 = rs.push(r);
    assert(rs2[rs.len() as int] == r);
    assert(forall|i: int| 0 <= i < rs.len() ==> #[trigger] rs2[i] == rs[i]);
    assert(v4_set(rs2) =~= v4_set(rs).insert(norm4(a, l))) by {
        assert forall|p: (u32, u8)| v4_set(rs2).contains(p) implies v4_set(rs).insert(
            norm4(a, l),
        ).contains(p) by {
            if p != (0u32, 0u8) {
                let i = choose|i: int|
                    #![trigger rs2[i]]
                    {
                        &&& 0 <= i < rs2.len()
                        &&& rs2[i] matches CidrRange::V4(x, y)
                        &&& p == norm4(x, y)
                    };
                if i < rs.len() {
                    assert(v4_set(rs).contains(p));
                }
            }
        }
        assert forall|p: (u32, u8)| v4_set(rs).insert(norm4(a, l)).contains(p) implies v4_set(
            rs2,
        ).contains(p) by {
            if p == norm4(a, l) {
                assert(rs2[rs.len() as int] matches CidrRange::V4(x, y) && p == norm4(x, y));
            } else {
                assert(v4_set(rs).contains(p));
                if p != (0u32, 0u8) {
                    let i = choose|i: int|
                    #![trigger rs[i]]
                    {
                        &&& 0 <= i < rs.len()
                        &&& rs[i] matches CidrRange::V4(x, y)
                        &&& p == norm4(x, y)
                    };
                    assert(rs2[i] matches CidrRange::V4(x, y) && p == norm4(x, y));
                }
            }
        }
    }
    assert(v6_set(rs2) =~= v6_set(rs)) by {
        assert forall|p: (u128, u8)| v6_set(rs2).contains(p) implies v6_set(rs).contains(p) by {
            if p != (0u128, 0u8) {
                let i = choose|i: int|
                    #![trigger rs2[i]]
                    {
                        &&& 0 <= i < rs2.len()
                        &&& rs2[i] matches CidrRange::V6(x, y)
                        &&& p == norm6(x, y)
                    };
                assert(i < rs.len());
                assert(rs[i] matches CidrRange::V6(x, y) && p == norm6(x, y));
            }
        }
        assert forall|p: (u128, u8)| v6_set(rs).contains(p) implies v6_set(rs2).contains(p) by {
            if p != (0u128, 0u8) {
                let i = choose|i: int|
                    #![trigger rs[i]]
                    {
                        &&& 0 <= i < rs.len()
                        &&& rs[i] matches CidrRange::V6(x, y)
                        &&& p == norm6(x, y)
                    };
                assert(rs2[i] matches CidrRange::V6(x, y) && p == norm6(x, y));
            }
        }
    }
    if has_default4(rs) {
        let i = choose|i: int|
                    #![trigger rs[i]]
                    {
                        &&& 0 <= i < rs.len()
                        &&& rs[i] matches CidrRange::V4(x, y)
                        &&& y == 0
                    };
        assert(rs2[i] matches CidrRange::V4(x, y) && y == 0);
    }
    if l == 0 {
        assert(rs2[rs.len() as int] matches CidrRange::V4(x, y) && y == 0);
    }
    if has_default4(rs2) && l != 0 {
        let i = choose|i: int|
                    #![trigger rs2[i]]
                    {
                        &&& 0 <= i < rs2.len()
                        &&& rs2[i] matches CidrRange::V4(x, y)
                        &&& y == 0
                    };
        assert(i < rs.len());
        assert(rs[i] matches CidrRange::V4(x, y) && y == 0);
    }
    if has_default6(rs) {
        let i = choose|i: int|
                    #![trigger rs[i]]
                    {
                        &&& 0 <= i < rs.len()
                        &&& rs[i] matches CidrRange::V6(x, y)
                        &&& y == 0
                    };
        assert(rs2[i] matches CidrRange::V6(x, y) && y == 0);
    }
    if has_default6(rs2) {
        let i = choose|i: int|
                    #![trigger rs2[i]]
                    {
                        &&& 0 <= i < rs2.len()
                        &&& rs2[i] matches CidrRange::V6(x, y)
                        &&& y == 0
                    };
        assert(i < rs.len());
        assert(rs[i] matches CidrRange::V6(x, y) && y == 0);
    }
}

/// Appending an IPv6 range adds its normalized prefix to the IPv6 set and
/// leaves the IPv4 side untouched.
proof fn lemma_sets_push_v6(rs: Seq<CidrRange>, a: u128, l: u8)
    ensures
        v6_set(rs.push(CidrRange::V6(a, l))) == v6_set(rs).insert(norm6(a, l)),
        v4_set(rs.push(CidrRange::V6(a, l))) == v4_set(rs),
        has_default6(rs.push(CidrRange::V6(a, l))) == (has_default6(rs) || l == 0),
        has_default4(rs.push(CidrRange::V6(a, l))) == has_default4(rs),
{
    let r = CidrRange::V6(a, l);
    let rs2 = rs.push(r);
    assert(rs2[rs.len() as int] == r);
    assert(forall|i: int| 0 <= i < rs.len() ==> #[trigger] rs2[i] == rs[i]);
    assert(v6_set(rs2) =~= v6_set(rs).insert(norm6(a, l))) by {
        assert forall|p: (u128, u8)| v6_set(rs2).contains(p) implies v6_set(rs).insert(
            norm6(a, l),
        ).contains(p) by {
            if p != (0u128, 0u8) {
                let i = choose|i: int|
                    #![trigger rs2[i]]
                    {
                        &&& 0 <= i < rs2.len()
                        &&& rs2[i] matches CidrRange::V6(x, y)
                        &&& p == norm6(x, y)
                    };
                if i < rs.len() {
                    assert(v6_set(rs).contains(p));
                }
            }
        }
        assert forall|p: (u128, u8)| v6_set(rs).insert(norm6(a, l)).contains(p) implies v6_set(
            rs2,
        ).contains(p) by {
            if p == norm6(a, l) {
                assert(rs2[rs.len() as int] matches CidrRange::V6(x, y) && p == norm6(x, y));
            } else {
                assert(v6_set(rs).contains(p));
                if p != (0u128, 0u8) {
                    let i = choose|i: int|
                    #![trigger rs[i]]
                    {
                        &&& 0 <= i < rs.len()
                        &&& rs[i] matches CidrRange::V6(x, y)
                        &&& p == norm6(x, y)
                    };
                    assert(rs2[i] matches CidrRange::V6(x, y) && p == norm6(x, y));
                }
            }
        }
    }
    assert(v4_set(rs2) =~= v4_set(rs)) by {
        assert forall|p: (u32, u8)| v4_set(rs2).contains(p) implies v4_set(rs).contains(p) by {
            if p != (0u32, 0u8) {
                let i = choose|i: int|
                    #![trigger rs2[i]]
                    {
                        &&& 0 <= i < rs2.len()
                        &&& rs2[i] matches CidrRange::V4(x, y)
                        &&& p == norm4(x, y)
                    };
                assert(i < rs.len());
                assert(rs[i] matches CidrRange::V4(x, y) && p == norm4(x, y));
            }
        }
        assert forall|p: (u32, u8)| v4_set(rs).contains(p) implies v4_set(rs2).contains(p) by {
            if p != (0u32, 0u8) {
                let i = choose|i: int|
                    #![trigger rs[i]]
                    {
                        &&& 0 <= i < rs.len()
                        &&& rs[i] matches CidrRange::V4(x, y)
                        &&& p == norm4(x, y)
                    };
                assert(rs2[i] matches CidrRange::V4(x, y) && p == norm4(x, y));
            }
        }
    }
    if has_default6(rs) {
        let i = choose|i: int|
                    #![trigger rs[i]]
                    {
                        &&& 0 <= i < rs.len()
                        &&& rs[i] matches CidrRange::V6(x, y)
                        &&& y == 0
                    };
        assert(rs2[i] matches CidrRange::V6(x, y) && y == 0);
    }
    if l == 0 {
        assert(rs2[rs.len() as int] matches CidrRange::V6(x, y) && y == 0);
    }
    if has_default6(rs2) && l != 0 {
        let i = choose|i: int|
                    #![trigger rs2[i]]
                    {
                        &&& 0 <= i < rs2.len()
                        &&& rs2[i] matches CidrRange::V6(x, y)
                        &&& y == 0
                    };
        assert(i < rs.len());
        assert(rs[i] matches CidrRange::V6(x, y) && y == 0);
    }
    if has_default4(rs) {
        let i = choose|i: int|
                    #![trigger rs[i]]
                    {
                        &&& 0 <= i < rs.len()
                        &&& rs[i] matches CidrRange::V4(x, y)
                        &&& y == 0
                    };
        assert(rs2[i] matches CidrRange::V4(x, y) && y == 0);
    }
    if has_default4(rs2) {
        let i = choose|i: int|
                    #![trigger rs2[i]]
                    {
                        &&& 0 <= i < rs2.len()
                        &&& rs2[i] matches CidrRange::V4(x, y)
                        &&& y == 0
                    };
        assert(i < rs.len());
        assert(rs[i] matches CidrRange::V4(x, y) && y == 0);
    }
}


/// The parsed ranges of a column of range literals, null rows skipped, in
/// column order.
pub open spec fn parsed_ranges(col: Seq<Option<String>>) -> Seq<CidrRange>
    decreases col.len(),
{
    if col.len() == 0 {
        Seq::<CidrRange>::empty()
    } else {
        let rest = parsed_ranges(col.drop_last());
        match col.last() {
            None => rest,
            Some(s) => match spec_parse_cidr(encode_utf8(s@)) {
                Some(r) => rest.push(r),
                None => rest,
            },
        }
    }
}

/// Every present row of the column is a well-formed range literal.
pub open spec fn all_ranges_ok(col: Seq<Option<String>>) -> bool {
    forall|i: int|
        0 <= i < col.len() ==> ((#[trigger] col[i]) matches Some(s) ==> spec_parse_cidr(
            encode_utf8(s@),
        ) is Some)
}

/// The failure text for one malformed range literal.
pub open spec fn invalid_range_msg(s: Seq<char>) -> Seq<char> {
    "Invalid CIDR range: "@ + s
}

/// The call-scoped CIDR membership index: one frozen trie per address
/// family, the presence of a zero-length range per family, and the ghost
/// list of the ranges it was built from.
pub struct CidrSet {
    pub v4: Lctrie4,
    pub v6: Lctrie6,
    pub default4: bool,
    pub default6: bool,
    pub ranges: Ghost<Seq<CidrRange>>,
}

impl CidrSet {
    /// The tries hold exactly the normalized prefixes of the ranges, and
    /// the per-family flags record whether a zero-length range is present.
    pub open spec fn wf(self) -> bool {
        &&& lctrie4_contents(self.v4) == v4_set(self.ranges@)
        &&& lctrie6_contents(self.v6) == v6_set(self.ranges@)
        &&& self.default4 == has_default4(self.ranges@)
        &&& self.default6 == has_default6(self.ranges@)
    }

    /// Compiles a column of range literals into the index: parse each
    /// present row, insert it into the trie of its family, then compress
    /// both tries. One malformed literal fails the whole construction,
    /// naming the literal, with nothing built.
    #[verifier::loop_isolation(false)]
    pub fn build(cidrs: &Vec<Option<String>>) -> (r: Result<CidrSet, String>)
        ensures
            r is Ok <==> all_ranges_ok(cidrs@),
            r matches Ok(cs) ==> cs.wf() && cs.ranges@ == parsed_ranges(cidrs@),
            r matches Err(m) ==> exists|i: int|
                #![trigger cidrs@[i]]
                {
                    &&& 0 <= i < cidrs@.len()
                    &&& cidrs@[i] matches Some(s)
                    &&& spec_parse_cidr(encode_utf8(s@)) is None
                    &&& m@ == invalid_range_msg(s@)
                },
    {
        let mut t4 = rtrie4_new();
        let mut t6 = rtrie6_new();
        let mut default4 = false;
        let mut default6 = false;
        let mut i: usize = 0;
        proof {
            assert(crate::trie::rtrie4_contents(t4) =~= v4_set(Seq::<CidrRange>::empty()));
            assert(crate::trie::rtrie6_contents(t6) =~= v6_set(Seq::<CidrRange>::empty()));
            assert(parsed_ranges(cidrs@.subrange(0, 0)) =~= Seq::<CidrRange>::empty());
        }
        while i < cidrs.len()
            invariant
                0 <= i <= cidrs@.len(),
                crate::trie::rtrie4_contents(t4) == v4_set(
                    parsed_ranges(cidrs@.subrange(0, i as int)),
                ),
                crate::trie::rtrie6_contents(t6) == v6_set(
                    parsed_ranges(cidrs@.subrange(0, i as int)),
                ),
                default4 == has_default4(parsed_ranges(cidrs@.subrange(0, i as int))),
                default6 == has_default6(parsed_ranges(cidrs@.subrange(0, i as int))),
                forall|j: int|
                    0 <= j < i ==> ((#[trigger] cidrs@[j]) matches Some(s) ==> spec_parse_cidr(
                        encode_utf8(s@),
                    ) is Some),
            decreases cidrs@.len() - i,
        {
            let ghost pre = parsed_ranges(cidrs@.subrange(0, i as int));
            proof {
                assert(cidrs@.subrange(0, i + 1 as int).drop_last() =~= cidrs@.subrange(
                    0,
                    i as int,
                ));
                assert(cidrs@.subrange(0, i + 1 as int).last() == cidrs@[i as int]);
            }
            match &cidrs[i] {
                Some(s) => match parse_cidr_bytes(s.as_str().as_bytes()) {
                    Some(CidrRange::V4(a, l)) => {
                        proof {
                            lemma_sets_push_v4(pre, a, l);
                        }
                        rtrie4_insert(&mut t4, a, l);
                        if l == 0 {
                            default4 = true;
                        }
                    },
                    Some(CidrRange::V6(a, l)) => {
                        proof {
                            lemma_sets_push_v6(pre, a, l);
                        }
                        rtrie6_insert(&mut t6, a, l);
                        if l == 0 {
                            default6 = true;
                        }
                    },
                    None => {
                        let mut m = String::from_str("Invalid CIDR range: ");
                        m.append(s.as_str());
                        return Err(m);
                    },
                },
                None => {},
            }
            i = i + 1;
        }
        proof {
            assert(cidrs@.subrange(0, cidrs@.len() as int) =~= cidrs@);
        }
        let v4 = rtrie4_compress(t4);
        let v6 = rtrie6_compress(t6);
        Ok(CidrSet { v4, v6, default4, default6, ranges: Ghost(parsed_ranges(cidrs@)) })
    }

    /// Whether at least one IPv4 range of the set covers the address.
    pub fn is_in4(&self, q: u32) -> (r: bool)
        requires
            self.wf(),
        ensures
            r == spec_matches4(self.ranges@, q),
    {
        let ghost rs = self.ranges@;
        if self.default4 {
            proof {
                let i = choose|i: int|
                    #![trigger rs[i]]
                    {
                        &&& 0 <= i < rs.len()
                        &&& rs[i] matches CidrRange::V4(a, l)
                        &&& l == 0
                    };
                assert(q & 0u32 == 0u32) by (bit_vector);
                if let CidrRange::V4(a, l) = rs[i] {
                    assert(norm4(a, 0) == (0u32, 0u8)) by {
                        assert(a & 0u32 == 0u32) by (bit_vector);
                    }
                    assert(covers4(norm4(a, l), q));
                }
            }
            true
        } else {
            let hit = lctrie4_lookup(&self.v4, q);
            proof {
                if hit.1 > 0 {
                    assert(v4_set(rs).contains(hit));
                    assert(hit != (0u32, 0u8));
                    let i = choose|i: int|
                        #![trigger rs[i]]
                        {
                            &&& 0 <= i < rs.len()
                            &&& rs[i] matches CidrRange::V4(a, l)
                            &&& hit == norm4(a, l)
                        };
                    if let CidrRange::V4(a, l) = rs[i] {
                        assert(covers4(norm4(a, l), q));
                    }
                } else {
                    if spec_matches4(rs, q) {
                        let i = choose|i: int|
                            #![trigger rs[i]]
                            {
                                &&& 0 <= i < rs.len()
                                &&& rs[i] matches CidrRange::V4(a, l)
                                &&& covers4(norm4(a, l), q)
                            };
                        if let CidrRange::V4(a, l) = rs[i] {
                            assert(v4_set(rs).contains(norm4(a, l)));
                            assert(norm4(a, l).1 <= hit.1);
                            assert(l == 0);
                        }
                    }
                }
            }
            hit.1 > 0
        }
    }

    /// Whether at least one IPv6 range of the set covers the address.
    pub fn is_in6(&self, q: u128) -> (r: bool)
        requires
            self.wf(),
        ensures
            r == spec_matches6(self.ranges@, q),
    {
        let ghost rs = self.ranges@;
        if self.default6 {
            proof {
                let i = choose|i: int|
                    #![trigger rs[i]]
                    {
                        &&& 0 <= i < rs.len()
                        &&& rs[i] matches CidrRange::V6(a, l)
                        &&& l == 0
                    };
                assert(q & 0u128 == 0u128) by (bit_vector);
                if let CidrRange::V6(a, l) = rs[i] {
                    assert(norm6(a, 0) == (0u128, 0u8)) by {
                        assert(a & 0u128 == 0u128) by (bit_vector);
                    }
                    assert(covers6(norm6(a, l), q));
                }
            }
            true
        } else {
            let hit = lctrie6_lookup(&self.v6, q);
            proof {
                if hit.1 > 0 {
                    assert(v6_set(rs).contains(hit));
                    assert(hit != (0u128, 0u8));
                    let i = choose|i: int|
                        #![trigger rs[i]]
                        {
                            &&& 0 <= i < rs.len()
                            &&& rs[i] matches CidrRange::V6(a, l)
                            &&& hit == norm6(a, l)
                        };
                    if let CidrRange::V6(a, l) = rs[i] {
                        assert(covers6(norm6(a, l), q));
                    }
                } else {
                    if spec_matches6(rs, q) {
                        let i = choose|i: int|
                            #![trigger rs[i]]
                            {
                                &&& 0 <= i < rs.len()
                                &&& rs[i] matches CidrRange::V6(a, l)
                                &&& covers6(norm6(a, l), q)
                            };
                        if let CidrRange::V6(a, l) = rs[i] {
                            assert(v6_set(rs).contains(norm6(a, l)));
                            assert(norm6(a, l).1 <= hit.1);
                            assert(l == 0);
                        }
                    }
                }
            }
            hit.1 > 0
        }
    }
}

/// What the membership column owes each address row against a range list:
/// null and unparseable rows are null, and a parsed address reads true
/// exactly when a range of its own family covers it.
pub open spec fn spec_is_in_row(rs: Seq<CidrRange>, input: Option<String>) -> Option<bool> {
    match input {
        None => None,
        Some(s) => match spec_parse_ip(encode_utf8(s@)) {
            None => None,
            Some(IpAddress::V4(a)) => Some(spec_matches4(rs, a)),
            Some(IpAddress::V6(a)) => Some(spec_matches6(rs, a)),
        },
    }
}

/// Answers membership for a column of address text against the index.
#[verifier::loop_isolation(false)]
pub fn cidr_query(set: &CidrSet, addrs: &Vec<Option<String>>) -> (out: Vec<Option<bool>>)
    requires
        set.wf(),
    ensures
        out@.len() == addrs@.len(),
        forall|i: int|
            0 <= i < addrs@.len() ==> #[trigger] out@[i] == spec_is_in_row(
                set.ranges@,
                addrs@[i],
            ),
{
    let mut out: Vec<Option<bool>> = Vec::with_capacity(addrs.len());
    let mut i: usize = 0;
    while i < addrs.len()
        invariant
            0 <= i <= addrs@.len(),
            out@.len() == i,
            forall|j: int|
                0 <= j < i ==> #[trigger] out@[j] == spec_is_in_row(set.ranges@, addrs@[j]),
        decreases addrs@.len() - i,
    {
        match &addrs[i] {
            Some(s) => match parse_ip(s.as_str()) {
                Some(IpAddress::V4(a)) => out.push(Some(set.is_in4(a))),
                Some(IpAddress::V6(a)) => out.push(Some(set.is_in6(a))),
                None => out.push(None),
            },
            None => out.push(None),
        }
        i = i + 1;
    }
    out
}

/// Tests a column of address text for membership in a column of CIDR range
/// literals. The index is rebuilt from the range column on every call; one
/// malformed literal fails the whole call with zero rows processed, naming
/// the literal.
pub fn pl_is_in(addrs: &Vec<Option<String>>, cidrs: &Vec<Option<String>>) -> (r: Result<
    Vec<Option<bool>>,
    String,
>)
    ensures
        r is Ok <==> all_ranges_ok(cidrs@),
        r matches Ok(out) ==> out@.len() == addrs@.len() && (forall|i: int|
            0 <= i < addrs@.len() ==> #[trigger] out@[i] == spec_is_in_row(
                parsed_ranges(cidrs@),
                addrs@[i],
            )),
        r matches Err(m) ==> exists|i: int|
            #![trigger cidrs@[i]]
            {
                &&& 0 <= i < cidrs@.len()
                &&& cidrs@[i] matches Some(s)
                &&& spec_parse_cidr(encode_utf8(s@)) is None
                &&& m@ == invalid_range_msg(s@)
            },
{
    match CidrSet::build(cidrs) {
        Ok(set) => Ok(cidr_query(&set, addrs)),
        Err(m) => Err(m),
    }
}

} // verus!
