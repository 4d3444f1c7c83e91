//! The IPv6 side of the address parser: colon-separated hexadecimal groups,
//! one optional `::` run of zero groups, and an optional embedded dotted-quad
//! tail, assembled into a 128-bit value.

use vstd::prelude::*;
use vstd::string::StringSliceAdditionalSpecFns;

use crate::ip::{spec_parse_ipv4, parse_ipv4_bytes, IpAddress};
use crate::tokens::{
    find_byte, hex_group_val, lemma_find_from, scan_hex_group, split_at, split_from, BYTE_COLON,
};

verus! {

pub open spec fn no_empty(ts: Seq<Seq<u8>>) -> bool {
    forall|i: int| 0 <= i < ts.len() ==> #[trigger] ts[i].len() > 0
}

/// Index of the first empty token, or `ts.len()` if there is none.
pub open spec fn first_empty(ts: Seq<Seq<u8>>) -> int
    decreases ts.len(),
{
    if ts.len() == 0 {
        0
    } else if ts[0].len() == 0 {
        0
    } else {
        1 + first_empty(ts.subrange(1, ts.len() as int))
    }
}

pub proof fn lemma_first_empty(ts: Seq<Seq<u8>>)
    ensures
        0 <= first_empty(ts) <= ts.len(),
        first_empty(ts) < ts.len() ==> ts[first_empty(ts)].len() == 0,
        forall|i: int| 0 <= i < first_empty(ts) ==> #[trigger] ts[i].len() > 0,
    decreases ts.len(),
{
    if ts.len() > 0 && ts[0].len() > 0 {
        let sub = ts.subrange(1, ts.len() as int);
        lemma_first_empty(sub);
        assert forall|i: int| 0 <= i < first_empty(ts) implies #[trigger] ts[i].len() > 0 by {
            if i > 0 {
                assert(sub[i - 1] == ts[i]);
            }
        }
    }
}

/// The values of a run of hexadecimal group tokens.
pub open spec fn groups_vals(ts: Seq<Seq<u8>>) -> Option<Seq<u16>>
    decreases ts.len(),
{
    if ts.len() == 0 {
        Some(Seq::<u16>::empty())
    } else {
        match (groups_vals(ts.drop_last()), hex_group_val(ts.last())) {
            (Some(gs), Some(g)) => Some(gs + seq![g]),
            _ => None,
        }
    }
}

/// The values of the final run of tokens, where the very last token may be an
/// embedded dotted-quad standing for two groups.
pub open spec fn tail_vals(ts: Seq<Seq<u8>>) -> Option<Seq<u16>> {
    if ts.len() > 0 && spec_parse_ipv4(ts.last()) is Some {
        let v = spec_parse_ipv4(ts.last()).unwrap();
        match groups_vals(ts.drop_last()) {
            Some(gs) => Some(gs + seq![(v / 0x10000) as u16, (v % 0x10000) as u16]),
            None => None,
        }
    } else {
        groups_vals(ts)
    }
}

/// The 128-bit value of eight 16-bit groups, most significant first.
pub open spec fn groups_to_u128(g: Seq<u16>) -> nat
    decreases g.len(),
{
    if g.len() == 0 {
        0
    } else {
        (groups_to_u128(g.drop_last()) * 0x10000 + g.last()) as nat
    }
}

pub proof fn lemma_groups_to_u128_bound(g: Seq<u16>)
    ensures
        g.len() == 0 ==> groups_to_u128(g) == 0,
        g.len() == 1 ==> groups_to_u128(g) < 0x10000,
        g.len() == 2 ==> groups_to_u128(g) < 0x100000000,
        g.len() == 3 ==> groups_to_u128(g) < 0x1000000000000,
        g.len() == 4 ==> groups_to_u128(g) < 0x10000000000000000,
        g.len() == 5 ==> groups_to_u128(g) < 0x100000000000000000000,
        g.len() == 6 ==> groups_to_u128(g) < 0x1000000000000000000000000,
        g.len() == 7 ==> groups_to_u128(g) < 0x10000000000000000000000000000,
        g.len() == 8 ==> groups_to_u128(g) < 0x100000000000000000000000000000000,
    decreases g.len(),
{
    if g.len() > 0 {
        lemma_groups_to_u128_bound(g.drop_last());
    }
}

pub open spec fn zero_groups(n: nat) -> Seq<u16> {
    Seq::new(n, |i: int| 0u16)
}

/// The address value denoted by the groups before and after a `::` run: the
/// gap is filled with zero groups.
pub open spec fn assemble_v6(l: Seq<u16>, r: Seq<u16>) -> u128
    recommends
        l.len() + r.len() <= 8,
{
    groups_to_u128(l + zero_groups((8 - l.len() - r.len()) as nat) + r) as u128
}

/// Parses IPv6 text: tokens split at `:`; either eight groups outright, or a
/// single `::` (leading, trailing, interior, or alone) with at most seven
/// groups around it; the final token may be an embedded dotted quad counting
/// as two groups.
pub open spec fn spec_parse_ipv6(s: Seq<u8>) -> Option<u128> {
    let ts = split_at(s, BYTE_COLON);
    let n = ts.len() as int;
    if n >= 3 && ts[0].len() == 0 && ts[1].len() == 0 {
        if n == 3 && ts[2].len() == 0 {
            Some(0u128)
        } else {
            let rest = ts.subrange(2, n);
            if no_empty(rest) {
                match tail_vals(rest) {
                    Some(r) => if r.len() <= 7 {
                        Some(assemble_v6(Seq::<u16>::empty(), r))
                    } else {
                        None
                    },
                    None => None,
                }
            } else {
                None
            }
        }
    } else if n >= 3 && ts[n - 1].len() == 0 && ts[n - 2].len() == 0 && no_empty(
        ts.subrange(0, n - 2),
    ) {
        match groups_vals(ts.subrange(0, n - 2)) {
            Some(l) => if l.len() <= 7 {
                Some(assemble_v6(l, Seq::<u16>::empty()))
            } else {
                None
            },
            None => None,
        }
    } else if no_empty(ts) {
        match tail_vals(ts) {
            Some(g) => if g.len() == 8 {
                Some(assemble_v6(g, Seq::<u16>::empty()))
            } else {
                None
            },
            None => None,
        }
    } else {
        let k = first_empty(ts);
        if 1 <= k <= n - 2 && (forall|i: int| 0 <= i < n && i != k ==> #[trigger] ts[i].len() > 0) {
            match (groups_vals(ts.subrange(0, k)), tail_vals(ts.subrange(k + 1, n))) {
                (Some(l), Some(r)) => if l.len() + r.len() <= 7 {
                    Some(assemble_v6(l, r))
                } else {
                    None
                },
                _ => None,
            }
        } else {
            None
        }
    }
}

pub open spec fn ranges_to_tokens(s: Seq<u8>, rs: Seq<(usize, usize)>) -> Seq<Seq<u8>> {
    rs.map_values(|p: (usize, usize)| s.subrange(p.0 as int, p.1 as int))
}

/// Well-formed token ranges: each range lies within the byte string.
pub open spec fn wf_ranges(s: Seq<u8>, rs: Seq<(usize, usize)>) -> bool {
    forall|j: int| 0 <= j < rs.len() ==> (#[trigger] rs[j]).0 <= rs[j].1 <= s.len()
}

/// If some token in the run is not a valid hexadecimal group, the run has no
/// value.
proof fn lemma_groups_vals_none(ts: Seq<Seq<u8>>, j: int)
    requires
        0 <= j < ts.len(),
        hex_group_val(ts[j]) is None,
    ensures
        groups_vals(ts) is None,
    decreases ts.len(),
{
    if j < ts.len() - 1 {
        lemma_groups_vals_none(ts.drop_last(), j);
    }
}

/// Reads the values of the hexadecimal group tokens `toks[lo..hi]`.
#[verifier::loop_isolation(false)]
fn scan_groups(s: &[u8], toks: &Vec<(usize, usize)>, lo: usize, hi: usize) -> (r: Option<Vec<u16>>)
    requires
        lo <= hi <= toks@.len(),
        wf_ranges(s@, toks@),
    ensures
        match r {
            Some(v) => groups_vals(ranges_to_tokens(s@, toks@).subrange(lo as int, hi as int))
                == Some(v@),
            None => groups_vals(ranges_to_tokens(s@, toks@).subrange(lo as int, hi as int))
                is None,
        },
{
    let ghost ts = ranges_to_tokens(s@, toks@);
    let mut acc: Vec<u16> = Vec::new();
    let mut i: usize = lo;
    while i < hi
        invariant
            lo <= i <= hi,
            groups_vals(ts.subrange(lo as int, i as int)) == Some(acc@),
        decreases hi - i,
    {
        let (a, b) = (toks[i].0, toks[i].1);
        let g = scan_hex_group(s, a, b);
        match g {
            Some(gv) => {
                acc.push(gv);
                proof {
                    let pre = ts.subrange(lo as int, i as int);
                    let cur = ts.subrange(lo as int, i + 1 as int);
                    assert(cur.drop_last() =~= pre);
                    assert(cur.last() == ts[i as int]);
                }
            },
            None => {
                proof {
                    let whole = ts.subrange(lo as int, hi as int);
                    assert(whole[i - lo] == ts[i as int]);
                    lemma_groups_vals_none(whole, i - lo);
                }
                return None;
            },
        }
        i = i + 1;
    }
    proof {
        assert(ts.subrange(lo as int, hi as int) == ts.subrange(lo as int, i as int));
    }
    Some(acc)
}

/// Reads the values of the final token run `toks[lo..hi]`, allowing an
/// embedded dotted quad as the very last token.
fn scan_tail(s: &[u8], toks: &Vec<(usize, usize)>, lo: usize, hi: usize) -> (r: Option<Vec<u16>>)
    requires
        lo < hi <= toks@.len(),
        wf_ranges(s@, toks@),
    ensures
        match r {
            Some(v) => tail_vals(ranges_to_tokens(s@, toks@).subrange(lo as int, hi as int))
                == Some(v@),
            None => tail_vals(ranges_to_tokens(s@, toks@).subrange(lo as int, hi as int)) is None,
        },
{
    let ghost ts = ranges_to_tokens(s@, toks@).subrange(lo as int, hi as int);
    let (a, b) = (toks[hi - 1].0, toks[hi - 1].1);
    assert(ts.last() == s@.subrange(a as int, b as int));
    let last_v4 = parse_ipv4_bytes(&s[a..b]);
    match last_v4 {
        Some(v) => {
            proof {
                assert(ts.drop_last() =~= ranges_to_tokens(s@, toks@).subrange(
                    lo as int,
                    hi - 1 as int,
                ));
            }
            match scan_groups(s, toks, lo, hi - 1) {
                Some(mut gs) => {
                    gs.push((v / 0x10000) as u16);
                    gs.push((v % 0x10000) as u16);
                    proof {
                        assert(gs@ =~= groups_vals(ts.drop_last()).unwrap() + seq![
                            ((v / 0x10000) as u16),
                            ((v % 0x10000) as u16),
                        ]);
                    }
                    Some(gs)
                },
                None => None,
            }
        },
        None => scan_groups(s, toks, lo, hi),
    }
}

/// Folds at most eight groups into their numeric value.
#[verifier::loop_isolation(false)]
fn fold_groups(g: &Vec<u16>) -> (r: u128)
    requires
        g@.len() <= 8,
    ensures
        r == groups_to_u128(g@),
{
    let mut acc: u128 = 0;
    let mut i: usize = 0;
    while i < g.len()
        invariant
            0 <= i <= g@.len(),
            acc == groups_to_u128(g@.subrange(0, i as int)),
        decreases g@.len() - i,
    {
        proof {
            let pre = g@.subrange(0, i as int);
            let cur = g@.subrange(0, i + 1 as int);
            assert(cur.drop_last() =~= pre);
            assert(cur.last() == g@[i as int]);
            lemma_groups_to_u128_bound(pre);
        }
        acc = acc * 0x10000 + (g[i] as u128);
        i = i + 1;
    }
    proof {
        assert(g@.subrange(0, g@.len() as int) =~= g@);
    }
    acc
}

/// Builds the full eight groups around the `::` gap and folds them.
#[verifier::loop_isolation(false)]
fn assemble(l: &Vec<u16>, r: &Vec<u16>) -> (v: u128)
    requires
        l@.len() + r@.len() <= 8,
    ensures
        v == assemble_v6(l@, r@),
{
    let mut full: Vec<u16> = Vec::new();
    let mut i: usize = 0;
    while i < l.len()
        invariant
            0 <= i <= l@.len(),
            full@ =~= l@.subrange(0, i as int),
        decreases l@.len() - i,
    {
        full.push(l[i]);
        i = i + 1;
    }
    let zeros: usize = 8 - l.len() - r.len();
    let mut z: usize = 0;
    while z < zeros
        invariant
            0 <= z <= zeros,
            full@ =~= l@ + zero_groups(z as nat),
        decreases zeros - z,
    {
        full.push(0);
        proof {
            assert(full@ =~= l@ + zero_groups((z + 1) as nat));
        }
        z = z + 1;
    }
    let mut j: usize = 0;
    while j < r.len()
        invariant
            0 <= j <= r@.len(),
            full@ =~= l@ + zero_groups(zeros as nat) + r@.subrange(0, j as int),
        decreases r@.len() - j,
    {
        full.push(r[j]);
        proof {
            assert(full@ =~= l@ + zero_groups(zeros as nat) + r@.subrange(0, j + 1 as int));
        }
        j = j + 1;
    }
    proof {
        assert(r@.subrange(0, r@.len() as int) =~= r@);
        lemma_groups_to_u128_bound(full@);
    }
    fold_groups(&full)
}

/// Parses IPv6 text from bytes.
#[verifier::loop_isolation(false)]
#[verifier::rlimit(80)]
pub fn parse_ipv6_bytes(s: &[u8]) -> (r: Option<u128>)
    ensures
        r == spec_parse_ipv6(s@),
{
    let len: usize = s.len();
    let ghost all = split_at(s@, BYTE_COLON);
    let mut toks: Vec<(usize, usize)> = Vec::new();
    let mut cur: usize = 0;
    let mut done: bool = false;
    while !done
        invariant
            cur <= len,
            !done ==> all =~= ranges_to_tokens(s@, toks@) + split_from(s@, cur as int, BYTE_COLON),
            done ==> all =~= ranges_to_tokens(s@, toks@) && toks@.len() >= 1,
            wf_ranges(s@, toks@),
        decreases len - cur + (if done { 0int } else { 1int }),
    {
        let p = find_byte(s, cur, BYTE_COLON);
        toks.push((cur, p));
        proof {
            lemma_find_from(s@, cur as int, BYTE_COLON);
            assert(ranges_to_tokens(s@, toks@) =~= ranges_to_tokens(s@, toks@.drop_last())
                + seq![s@.subrange(cur as int, p as int)]);
        }
        if p >= len {
            done = true;
            proof {
                assert(all =~= ranges_to_tokens(s@, toks@));
            }
        } else {
            cur = p + 1;
        }
    }
    let ghost ts = ranges_to_tokens(s@, toks@);
    let n: usize = toks.len();
    proof {
        assert(ts =~= all);
        assert(forall|j: int| 0 <= j < n ==> (#[trigger] ts[j]).len() == toks@[j].1 - toks@[j].0);
    }
    if n >= 3 && toks[0].1 == toks[0].0 && toks[1].1 == toks[1].0 {
        // a leading "::"
        if n == 3 && toks[2].1 == toks[2].0 {
            return Some(0);
        }
        // the remaining tokens must all be nonempty
        let mut i: usize = 2;
        while i < n
            invariant
                2 <= i <= n,
                forall|j: int| 2 <= j < i ==> (#[trigger] ts[j]).len() > 0,
            decreases n - i,
        {
            if toks[i].1 == toks[i].0 {
                proof {
                    let rest = ts.subrange(2, n as int);
                    assert(rest[i - 2].len() == 0);
                    assert(!no_empty(rest));
                }
                return None;
            }
            i = i + 1;
        }
        proof {
            let rest = ts.subrange(2, n as int);
            assert(forall|j: int| 0 <= j < rest.len() ==> (#[trigger] rest[j]).len() > 0);
            assert(no_empty(rest));
            assert(rest =~= ranges_to_tokens(s@, toks@).subrange(2, n as int));
        }
        match scan_tail(s, &toks, 2, n) {
            Some(r) => {
                if r.len() <= 7 {
                    let l: Vec<u16> = Vec::new();
                    let v = assemble(&l, &r);
                    proof {
                        assert(l@ =~= Seq::<u16>::empty());
                    }
                    return Some(v);
                }
                return None;
            },
            None => {
                return None;
            },
        }
    }
    if n >= 3 && toks[n - 1].1 == toks[n - 1].0 && toks[n - 2].1 == toks[n - 2].0 {
        // a trailing "::": the head tokens must all be nonempty
        let mut i: usize = 0;
        while i < n - 2
            invariant
                0 <= i <= n - 2,
                forall|j: int| 0 <= j < i ==> (#[trigger] ts[j]).len() > 0,
            decreases n - i,
        {
            if toks[i].1 == toks[i].0 {
                proof {
                    let head = ts.subrange(0, n - 2 as int);
                    assert(head[i as int].len() == 0);
                    assert(!no_empty(head));
                }
                return None;
            }
            i = i + 1;
        }
        proof {
            let head = ts.subrange(0, n - 2 as int);
            assert(forall|j: int| 0 <= j < head.len() ==> (#[trigger] head[j]).len() > 0);
            assert(no_empty(head));
            assert(head =~= ranges_to_tokens(s@, toks@).subrange(0, n - 2 as int));
        }
        match scan_groups(s, &toks, 0, n - 2) {
            Some(l) => {
                if l.len() <= 7 {
                    let r: Vec<u16> = Vec::new();
                    let v = assemble(&l, &r);
                    proof {
                        assert(r@ =~= Seq::<u16>::empty());
                    }
                    return Some(v);
                }
                return None;
            },
            None => {
                return None;
            },
        }
    }
    // find the first empty token, if any
    let mut k: usize = 0;
    while k < n
        invariant
            0 <= k <= n,
            forall|j: int| 0 <= j < k ==> (#[trigger] ts[j]).len() > 0,
        decreases n - k,
    {
        if toks[k].1 == toks[k].0 {
            break;
        }
        k = k + 1;
    }
    proof {
        lemma_first_empty(ts);
        if k < n {
            assert(ts[k as int].len() == 0);
            assert(first_empty(ts) == k) by {
                if first_empty(ts) < k {
                    assert(ts[first_empty(ts)].len() > 0);
                }
                if first_empty(ts) > k {
                    assert(ts[k as int].len() > 0);
                }
            }
        } else {
            assert(forall|j: int| 0 <= j < ts.len() ==> (#[trigger] ts[j]).len() > 0);
            assert(no_empty(ts));
        }
    }
    if k >= n {
        // no "::" anywhere: exactly eight groups
        match scan_tail(s, &toks, 0, n) {
            Some(g) => {
                if g.len() == 8 {
                    let r: Vec<u16> = Vec::new();
                    let v = assemble(&g, &r);
                    proof {
                        assert(r@ =~= Seq::<u16>::empty());
                        assert(ts =~= ranges_to_tokens(s@, toks@).subrange(0, n as int));
                    }
                    return Some(v);
                }
                proof {
                    assert(ts =~= ranges_to_tokens(s@, toks@).subrange(0, n as int));
                }
                return None;
            },
            None => {
                proof {
                    assert(ts =~= ranges_to_tokens(s@, toks@).subrange(0, n as int));
                }
                return None;
            },
        }
    }
    // an interior "::": no other token may be empty
    if k == 0 || k >= n - 1 {
        return None;
    }
    let mut i: usize = k + 1;
    while i < n
        invariant
            k + 1 <= i <= n,
            forall|j: int| k < j < i ==> (#[trigger] ts[j]).len() > 0,
        decreases n - i,
    {
        if toks[i].1 == toks[i].0 {
            proof {
                assert(ts[i as int].len() == 0 && i != first_empty(ts));
            }
            return None;
        }
        i = i + 1;
    }
    proof {
        assert(forall|j: int| 0 <= j < n && j != k ==> (#[trigger] ts[j]).len() > 0);
    }
    match (scan_groups(s, &toks, 0, k), scan_tail(s, &toks, k + 1, n)) {
        (Some(l), Some(r)) => {
            if l.len() <= 7 && r.len() <= 7 - l.len() {
                let v = assemble(&l, &r);
                return Some(v);
            }
            return None;
        },
        _ => {
            return None;
        },
    }
}

/// Parses a text token as an IP address: dotted-quad IPv4 first, IPv6
/// otherwise.
pub open spec fn spec_parse_ip(s: Seq<u8>) -> Option<IpAddress> {
    if spec_parse_ipv4(s) is Some {
        Some(IpAddress::V4(spec_parse_ipv4(s).unwrap()))
    } else if spec_parse_ipv6(s) is Some {
        Some(IpAddress::V6(spec_parse_ipv6(s).unwrap()))
    } else {
        None
    }
}

/// Parses a text token as an IP address.
pub fn parse_ip_bytes(s: &[u8]) -> (r: Option<IpAddress>)
    ensures
        r == spec_parse_ip(s@),
{
    match parse_ipv4_bytes(s) {
        Some(v) => Some(IpAddress::V4(v)),
        None => match parse_ipv6_bytes(s) {
            Some(v) => Some(IpAddress::V6(v)),
            None => None,
        },
    }
}

/// Parses string text as an IP address, over the string's UTF-8 bytes.
pub open spec fn spec_parse_ip_str(s: &str) -> Option<IpAddress> {
    spec_parse_ip(s.spec_bytes())
}

/// Parses a string as an IP address; accepts both IPv4 and IPv6 text and
/// rejects anything else, the empty string included.
pub fn parse_ip(s: &str) -> (r: Option<IpAddress>)
    ensures
        r == spec_parse_ip_str(s),
{
    parse_ip_bytes(s.as_bytes())
}

} // verus!
