//! Typed IP addresses and the IPv4 side of the address parser: parsing of
//! dotted-quad text, canonical formatting, and the numeric round trip.

use vstd::prelude::*;

use crate::tokens::{
    all_dec_digits, dec_digit_val, dec_value, find_byte, find_from, lemma_dec_value_bound,
    lemma_find_from, octet_val, scan_octet, BYTE_DOT, BYTE_ZERO,
};

verus! {

/// A parsed IP address: an IPv4 address as its 32-bit value, or an IPv6
/// address as its 128-bit value.
#[derive(Clone, Copy, Debug, PartialEq, Eq, Structural)]
pub enum IpAddress {
    V4(u32),
    V6(u128),
}

/// The 32-bit value of the dotted quad `a.b.c.d`.
pub open spec fn ipv4_from_octets(a: u8, b: u8, c: u8, d: u8) -> u32 {
    ((a as int) * 0x1000000 + (b as int) * 0x10000 + (c as int) * 0x100 + (d as int)) as u32
}

/// Parses dotted-quad IPv4 text: four octet tokens separated by `.`, each one
/// to three decimal digits without a leading zero and at most 255.
pub open spec fn spec_parse_ipv4(s: Seq<u8>) -> Option<u32> {
    let p1 = find_from(s, 0, BYTE_DOT);
    let p2 = find_from(s, p1 + 1, BYTE_DOT);
    let p3 = find_from(s, p2 + 1, BYTE_DOT);
    if p1 < s.len() && p2 < s.len() && p3 < s.len() && find_from(s, p3 + 1, BYTE_DOT) == s.len() {
        let o1 = octet_val(s.subrange(0, p1));
        let o2 = octet_val(s.subrange(p1 + 1, p2));
        let o3 = octet_val(s.subrange(p2 + 1, p3));
        let o4 = octet_val(s.subrange(p3 + 1, s.len() as int));
        if o1 is Some && o2 is Some && o3 is Some && o4 is Some {
            Some(ipv4_from_octets(o1.unwrap(), o2.unwrap(), o3.unwrap(), o4.unwrap()))
        } else {
            None
        }
    } else {
        None
    }
}

/// Parses dotted-quad IPv4 text from bytes.
pub fn parse_ipv4_bytes(s: &[u8]) -> (r: Option<u32>)
    ensures
        r == spec_parse_ipv4(s@),
{
    let len: usize = s.len();
    let p1 = find_byte(s, 0, BYTE_DOT);
    if p1 >= len {
        return None;
    }
    let p2 = find_byte(s, p1 + 1, BYTE_DOT);
    if p2 >= len {
        proof {
            lemma_find_from(s@, p1 + 1, BYTE_DOT);
        }
        return None;
    }
    let p3 = find_byte(s, p2 + 1, BYTE_DOT);
    if p3 >= len {
        proof {
            lemma_find_from(s@, p2 + 1, BYTE_DOT);
        }
        return None;
    }
    let p4 = find_byte(s, p3 + 1, BYTE_DOT);
    if p4 < len {
        return None;
    }
    let o1 = scan_octet(s, 0, p1);
    let o2 = scan_octet(s, p1 + 1, p2);
    let o3 = scan_octet(s, p2 + 1, p3);
    let o4 = scan_octet(s, p3 + 1, len);
    match (o1, o2, o3, o4) {
        (Some(a), Some(b), Some(c), Some(d)) => Some(
            (a as u32) * 0x1000000 + (b as u32) * 0x10000 + (c as u32) * 0x100 + (d as u32),
        ),
        _ => None,
    }
}

/// The octets of a 32-bit IPv4 value, most significant first.
pub open spec fn ipv4_octet(n: u32, k: int) -> u8 {
    if k == 0 {
        (n / 0x1000000) as u8
    } else if k == 1 {
        ((n / 0x10000) % 0x100) as u8
    } else if k == 2 {
        ((n / 0x100) % 0x100) as u8
    } else {
        (n % 0x100) as u8
    }
}

pub proof fn lemma_ipv4_octets_inverse(n: u32)
    ensures
        ipv4_from_octets(ipv4_octet(n, 0), ipv4_octet(n, 1), ipv4_octet(n, 2), ipv4_octet(n, 3))
            == n,
{
    assert(((((n / 0x1000000) % 0x100) as int) * 0x1000000 + (((n / 0x10000) % 0x100) as int)
        * 0x10000 + (((n / 0x100) % 0x100) as int) * 0x100 + ((n % 0x100) as int)) as u32 == n)
        by (bit_vector);
    assert(n / 0x1000000 < 0x100) by (bit_vector);
}

/// The canonical decimal digits of `n`, most significant first, without
/// leading zeros.
pub open spec fn dec_token(n: nat) -> Seq<u8>
    decreases n,
{
    if n < 10 {
        seq![(48 + n) as u8]
    } else {
        dec_token(n / 10) + seq![(48 + n % 10) as u8]
    }
}

pub proof fn lemma_dec_token(n: nat)
    ensures
        1 <= dec_token(n).len(),
        n <= 9 ==> dec_token(n).len() == 1,
        10 <= n <= 99 ==> dec_token(n).len() == 2,
        100 <= n <= 999 ==> dec_token(n).len() == 3,
        all_dec_digits(dec_token(n)),
        dec_value(dec_token(n)) == n,
        n >= 1 ==> dec_token(n)[0] != BYTE_ZERO,
        forall|i: int| 0 <= i < dec_token(n).len() ==> 48 <= #[trigger] dec_token(n)[i] <= 57,
    decreases n,
{
    if n < 10 {
        let t = dec_token(n);
        assert(t =~= seq![(48 + n) as u8]);
        assert(t.drop_last() =~= Seq::<u8>::empty());
        assert(dec_value(t.drop_last()) == 0);
        assert(dec_value(t) == dec_digit_val(t.last()));
        assert(dec_digit_val(t.last()) == n);
    } else {
        lemma_dec_token(n / 10);
        let head = dec_token(n / 10);
        let t = dec_token(n);
        assert(t =~= head + seq![(48 + n % 10) as u8]);
        assert(t.drop_last() =~= head);
        assert(t[0] == head[0]);
        assert(dec_value(t) == dec_value(head) * 10 + dec_digit_val(t.last()));
        assert(dec_digit_val(t.last()) == n % 10);
        assert(n / 10 * 10 + n % 10 == n) by (nonlinear_arith);
    }
}

pub proof fn lemma_dec_token_octet(n: nat)
    requires
        n <= 255,
    ensures
        octet_val(dec_token(n)) == Some(n as u8),
{
    lemma_dec_token(n);
}

/// Canonical dotted-quad text for a 32-bit IPv4 value.
pub open spec fn spec_format_ipv4(n: u32) -> Seq<u8> {
    dec_token(ipv4_octet(n, 0) as nat) + seq![BYTE_DOT] + dec_token(ipv4_octet(n, 1) as nat)
        + seq![BYTE_DOT] + dec_token(ipv4_octet(n, 2) as nat) + seq![BYTE_DOT] + dec_token(
        ipv4_octet(n, 3) as nat,
    )
}

/// If every byte of `s` in `[from, j)` differs from `b`, and `s[j]` is `b` (or
/// `j` is the end), then the first occurrence of `b` at or after `from` is `j`.
pub proof fn lemma_find_from_is(s: Seq<u8>, from: int, j: int, b: u8)
    requires
        0 <= from <= j <= s.len(),
        forall|i: int| from <= i < j ==> s[i] != b,
        j < s.len() ==> s[j] == b,
    ensures
        find_from(s, from, b) == j,
    decreases j - from,
{
    if from < j {
        lemma_find_from_is(s, from + 1, j, b);
    }
}

/// Formatting any 32-bit value as dotted-quad text and parsing it back
/// yields the value again: the numeric round trip, for every value.
pub proof fn lemma_ipv4_round_trip(n: u32)
    ensures
        spec_parse_ipv4(spec_format_ipv4(n)) == Some(n),
{
    let a = ipv4_octet(n, 0) as nat;
    let b = ipv4_octet(n, 1) as nat;
    let c = ipv4_octet(n, 2) as nat;
    let d = ipv4_octet(n, 3) as nat;
    let ta = dec_token(a);
    let tb = dec_token(b);
    let tc = dec_token(c);
    let td = dec_token(d);
    lemma_dec_token(a);
    lemma_dec_token(b);
    lemma_dec_token(c);
    lemma_dec_token(d);
    let s = spec_format_ipv4(n);
    let p1 = ta.len() as int;
    let p2 = p1 + 1 + tb.len();
    let p3 = p2 + 1 + tc.len();
    let end = p3 + 1 + td.len();
    assert(s.len() == end);
    assert(forall|i: int| 0 <= i < p1 ==> s[i] == ta[i]);
    assert(s[p1] == BYTE_DOT);
    assert(forall|i: int| p1 + 1 <= i < p2 ==> s[i] == tb[i - (p1 + 1)]);
    assert(s[p2] == BYTE_DOT);
    assert(forall|i: int| p2 + 1 <= i < p3 ==> s[i] == tc[i - (p2 + 1)]);
    assert(s[p3] == BYTE_DOT);
    assert(forall|i: int| p3 + 1 <= i < end ==> s[i] == td[i - (p3 + 1)]);
    assert(forall|i: int| 0 <= i < p1 ==> s[i] != BYTE_DOT);
    assert(forall|i: int| p1 + 1 <= i < p2 ==> s[i] != BYTE_DOT);
    assert(forall|i: int| p2 + 1 <= i < p3 ==> s[i] != BYTE_DOT);
    assert(forall|i: int| p3 + 1 <= i < end ==> s[i] != BYTE_DOT);
    lemma_find_from_is(s, 0, p1, BYTE_DOT);
    lemma_find_from_is(s, p1 + 1, p2, BYTE_DOT);
    lemma_find_from_is(s, p2 + 1, p3, BYTE_DOT);
    lemma_find_from_is(s, p3 + 1, end, BYTE_DOT);
    assert(s.subrange(0, p1) =~= ta);
    assert(s.subrange(p1 + 1, p2) =~= tb);
    assert(s.subrange(p2 + 1, p3) =~= tc);
    assert(s.subrange(p3 + 1, s.len() as int) =~= td);
    lemma_dec_token_octet(a);
    lemma_dec_token_octet(b);
    lemma_dec_token_octet(c);
    lemma_dec_token_octet(d);
    lemma_ipv4_octets_inverse(n);
}

/// Appends the canonical decimal digits of `n` to `v`.
pub fn push_dec(v: &mut Vec<u8>, n: u32)
    ensures
        final(v)@ == old(v)@ + dec_token(n as nat),
    decreases n,
{
    proof {
        lemma_dec_token(n as nat);
    }
    if n >= 10 {
        push_dec(v, n / 10);
        v.push(48 + (n % 10) as u8);
        assert(final(v)@ =~= old(v)@ + dec_token(n as nat));
    } else {
        v.push(48 + n as u8);
        assert(final(v)@ =~= old(v)@ + dec_token(n as nat));
    }
}

/// Canonical dotted-quad bytes for a 32-bit IPv4 value.
pub fn format_ipv4_bytes(n: u32) -> (r: Vec<u8>)
    ensures
        r@ == spec_format_ipv4(n),
        forall|i: int| 0 <= i < r@.len() ==> #[trigger] r@[i] < 128,
{
    let mut v: Vec<u8> = Vec::new();
    push_dec(&mut v, n / 0x1000000);
    v.push(BYTE_DOT);
    push_dec(&mut v, (n / 0x10000) % 0x100);
    v.push(BYTE_DOT);
    push_dec(&mut v, (n / 0x100) % 0x100);
    v.push(BYTE_DOT);
    push_dec(&mut v, n % 0x100);
    proof {
        assert(n / 0x1000000 < 0x100) by (bit_vector);
        assert(v@ =~= spec_format_ipv4(n));
        lemma_dec_token(ipv4_octet(n, 0) as nat);
        lemma_dec_token(ipv4_octet(n, 1) as nat);
        lemma_dec_token(ipv4_octet(n, 2) as nat);
        lemma_dec_token(ipv4_octet(n, 3) as nat);
        assert(forall|i: int| 0 <= i < v@.len() ==> #[trigger] v@[i] < 128);
    }
    v
}

/// Whether a 32-bit IPv4 value lies in one of the RFC 1918 private ranges:
/// `10.0.0.0/8`, `172.16.0.0/12`, or `192.168.0.0/16`.
pub open spec fn spec_ipv4_is_private(n: u32) -> bool {
    ||| ipv4_octet(n, 0) == 10
    ||| (ipv4_octet(n, 0) == 172 && 16 <= ipv4_octet(n, 1) <= 31)
    ||| (ipv4_octet(n, 0) == 192 && ipv4_octet(n, 1) == 168)
}

/// Tests a 32-bit IPv4 value against the RFC 1918 private ranges.
pub fn ipv4_is_private(n: u32) -> (r: bool)
    ensures
        r == spec_ipv4_is_private(n),
{
    let o1 = n / 0x1000000;
    let o2 = (n / 0x10000) % 0x100;
    proof {
        assert(n / 0x1000000 < 0x100) by (bit_vector);
    }
    o1 == 10 || (o1 == 172 && 16 <= o2 && o2 <= 31) || (o1 == 192 && o2 == 168)
}


/// A valid octet token is the canonical decimal text of its own value.
proof fn lemma_dec_token_inverse(t: Seq<u8>)
    requires
        1 <= t.len() <= 3,
        all_dec_digits(t),
        !(t.len() > 1 && t[0] == BYTE_ZERO),
    ensures
        dec_token(dec_value(t)) == t,
{
    lemma_dec_value_bound(t);
    if t.len() == 1 {
        let v = dec_value(t);
        assert(t.drop_last() =~= Seq::<u8>::empty());
        assert(v == dec_digit_val(t[0]));
        assert(dec_token(v) =~= t);
    } else if t.len() == 2 {
        let head = t.drop_last();
        let d0 = dec_digit_val(t[0]);
        let d1 = dec_digit_val(t[1]);
        assert(head.drop_last() =~= Seq::<u8>::empty());
        assert(dec_value(head.drop_last()) == 0);
        assert(head.last() == t[0]);
        assert(dec_value(head) == d0);
        let v = dec_value(t);
        assert(v == d0 * 10 + d1);
        assert(d0 >= 1);
        assert(v >= 10 && v <= 99);
        assert(v / 10 == d0 && v % 10 == d1) by (nonlinear_arith)
            requires
                v == d0 * 10 + d1,
                0 <= d1 < 10,
                0 <= d0,
        ;
        assert(dec_token(d0) =~= seq![t[0]]);
        assert(dec_token(v) =~= t);
    } else {
        let head = t.drop_last();
        let head2 = head.drop_last();
        let d0 = dec_digit_val(t[0]);
        let d1 = dec_digit_val(t[1]);
        let d2 = dec_digit_val(t[2]);
        assert(head[0] == t[0] && head[1] == t[1]);
        assert(head2 =~= seq![t[0]]);
        assert(head2.drop_last() =~= Seq::<u8>::empty());
        assert(dec_value(head2.drop_last()) == 0);
        assert(head2.last() == t[0]);
        assert(dec_value(head2) == d0);
        assert(dec_value(head) == d0 * 10 + d1);
        let v = dec_value(t);
        let h = d0 * 10 + d1;
        assert(v == h * 10 + d2);
        assert(d0 >= 1);
        assert(h >= 10 && h <= 99);
        assert(v >= 100 && v <= 999);
        assert(v / 10 == h && v % 10 == d2) by (nonlinear_arith)
            requires
                v == h * 10 + d2,
                0 <= d2 < 10,
                0 <= h,
        ;
        assert(h / 10 == d0 && h % 10 == d1) by (nonlinear_arith)
            requires
                h == d0 * 10 + d1,
                0 <= d1 < 10,
                0 <= d0,
        ;
        assert(dec_token(d0 as nat) =~= seq![t[0]]);
        assert(dec_token(h as nat) =~= seq![t[0], t[1]]);
        assert(dec_token(v) =~= t);
    }
}

/// Parsing valid dotted-quad text and formatting the value canonically
/// reproduces the text exactly: valid dotted-quad text is already canonical.
#[verifier::rlimit(100)]
pub proof fn lemma_ipv4_parse_then_format(s: Seq<u8>, n: u32)
    requires
        spec_parse_ipv4(s) == Some(n),
    ensures
        spec_format_ipv4(n) == s,
{
    let p1 = find_from(s, 0, BYTE_DOT);
    let p2 = find_from(s, p1 + 1, BYTE_DOT);
    let p3 = find_from(s, p2 + 1, BYTE_DOT);
    lemma_find_from(s, 0, BYTE_DOT);
    lemma_find_from(s, p1 + 1, BYTE_DOT);
    lemma_find_from(s, p2 + 1, BYTE_DOT);
    let t1 = s.subrange(0, p1);
    let t2 = s.subrange(p1 + 1, p2);
    let t3 = s.subrange(p2 + 1, p3);
    let t4 = s.subrange(p3 + 1, s.len() as int);
    let o1 = octet_val(t1).unwrap();
    let o2 = octet_val(t2).unwrap();
    let o3 = octet_val(t3).unwrap();
    let o4 = octet_val(t4).unwrap();
    assert(n == ipv4_from_octets(o1, o2, o3, o4));
    assert({
        &&& ipv4_octet(n, 0) == o1
        &&& ipv4_octet(n, 1) == o2
        &&& ipv4_octet(n, 2) == o3
        &&& ipv4_octet(n, 3) == o4
    }) by {
        let v = ((o1 as int) * 0x1000000 + (o2 as int) * 0x10000 + (o3 as int) * 0x100 + (
        o4 as int)) as u32;
        assert(o1 <= 255 && o2 <= 255 && o3 <= 255 && o4 <= 255);
        assert(v / 0x1000000 == o1 && (v / 0x10000) % 0x100 == o2 && (v / 0x100) % 0x100 == o3
            && v % 0x100 == o4) by (bit_vector)
            requires
                v == ((o1 as int) * 0x1000000 + (o2 as int) * 0x10000 + (o3 as int) * 0x100 + (
                o4 as int)) as u32,
                o1 <= 255 && o2 <= 255 && o3 <= 255 && o4 <= 255,
        ;
    }
    lemma_dec_value_bound(t1);
    lemma_dec_value_bound(t2);
    lemma_dec_value_bound(t3);
    lemma_dec_value_bound(t4);
    lemma_dec_token_inverse(t1);
    lemma_dec_token_inverse(t2);
    lemma_dec_token_inverse(t3);
    lemma_dec_token_inverse(t4);
    assert(dec_token(o1 as nat) == t1);
    assert(dec_token(o2 as nat) == t2);
    assert(dec_token(o3 as nat) == t3);
    assert(dec_token(o4 as nat) == t4);
    assert(s[p1] == BYTE_DOT && s[p2] == BYTE_DOT && s[p3] == BYTE_DOT);
    assert(spec_format_ipv4(n) =~= s);
}

} // verus!
