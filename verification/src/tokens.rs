//! Byte-level lexing of address text: digit classification, numeric value of
//! decimal and hexadecimal digit runs, and splitting a byte string at a
//! separator byte.

use vstd::prelude::*;

verus! {

/// `'0'`
pub const BYTE_ZERO: u8 = 48;

/// `'.'`
pub const BYTE_DOT: u8 = 46;

/// `':'`
pub const BYTE_COLON: u8 = 58;

/// `'/'`
pub const BYTE_SLASH: u8 = 47;

pub open spec fn is_dec_digit(b: u8) -> bool {
    48 <= b <= 57
}

pub open spec fn is_hex_digit(b: u8) -> bool {
    is_dec_digit(b) || 97 <= b <= 102 || 65 <= b <= 70
}

pub open spec fn dec_digit_val(b: u8) -> nat {
    (b - 48) as nat
}

pub open spec fn hex_digit_val(b: u8) -> nat {
    if is_dec_digit(b) {
        (b - 48) as nat
    } else if 97 <= b <= 102 {
        (b - 87) as nat
    } else {
        (b - 55) as nat
    }
}

pub open spec fn all_dec_digits(s: Seq<u8>) -> bool {
    forall|i: int| 0 <= i < s.len() ==> is_dec_digit(#[trigger] s[i])
}

pub open spec fn all_hex_digits(s: Seq<u8>) -> bool {
    forall|i: int| 0 <= i < s.len() ==> is_hex_digit(#[trigger] s[i])
}

/// Numeric value of a run of decimal digits, most significant digit first.
pub open spec fn dec_value(s: Seq<u8>) -> nat
    decreases s.len(),
{
    if s.len() == 0 {
        0
    } else {
        dec_value(s.drop_last()) * 10 + dec_digit_val(s.last())
    }
}

/// Numeric value of a run of hexadecimal digits, most significant digit first.
pub open spec fn hex_value(s: Seq<u8>) -> nat
    decreases s.len(),
{
    if s.len() == 0 {
        0
    } else {
        hex_value(s.drop_last()) * 16 + hex_digit_val(s.last())
    }
}

pub proof fn lemma_dec_value_bound(s: Seq<u8>)
    requires
        all_dec_digits(s),
    ensures
        s.len() == 0 ==> dec_value(s) == 0,
        s.len() == 1 ==> dec_value(s) <= 9,
        s.len() == 2 ==> dec_value(s) <= 99,
        s.len() == 3 ==> dec_value(s) <= 999,
    decreases s.len(),
{
    if s.len() > 0 {
        assert(all_dec_digits(s.drop_last())) by {
            assert(forall|i: int|
                0 <= i < s.drop_last().len() ==> #[trigger] s.drop_last()[i] == s[i]);
        }
        lemma_dec_value_bound(s.drop_last());
    }
}

pub proof fn lemma_hex_value_bound(s: Seq<u8>)
    requires
        all_hex_digits(s),
    ensures
        s.len() == 0 ==> hex_value(s) == 0,
        s.len() == 1 ==> hex_value(s) <= 0xf,
        s.len() == 2 ==> hex_value(s) <= 0xff,
        s.len() == 3 ==> hex_value(s) <= 0xfff,
        s.len() == 4 ==> hex_value(s) <= 0xffff,
    decreases s.len(),
{
    if s.len() > 0 {
        assert(all_hex_digits(s.drop_last())) by {
            assert(forall|i: int|
                0 <= i < s.drop_last().len() ==> #[trigger] s.drop_last()[i] == s[i]);
        }
        lemma_hex_value_bound(s.drop_last());
        assert(hex_digit_val(s.last()) <= 15);
    }
}

/// The value of a dotted-quad octet token: one to three decimal digits, no
/// leading zero, value at most 255.
pub open spec fn octet_val(s: Seq<u8>) -> Option<u8> {
    if 1 <= s.len() <= 3 && all_dec_digits(s) && !(s.len() > 1 && s[0] == BYTE_ZERO)
        && dec_value(s) <= 255 {
        Some(dec_value(s) as u8)
    } else {
        None
    }
}

/// The value of one hexadecimal group of an IPv6 address: one to four hex
/// digits; leading zeros are accepted.
pub open spec fn hex_group_val(s: Seq<u8>) -> Option<u16> {
    if 1 <= s.len() <= 4 && all_hex_digits(s) {
        Some(hex_value(s) as u16)
    } else {
        None
    }
}

/// The value of a prefix-length token: one to three decimal digits with value
/// at most `max`; leading zeros are accepted.
pub open spec fn prefix_len_val(s: Seq<u8>, max: u8) -> Option<u8> {
    if 1 <= s.len() <= 3 && all_dec_digits(s) && dec_value(s) <= max {
        Some(dec_value(s) as u8)
    } else {
        None
    }
}

/// Index of the first occurrence of `b` in `s` at or after `from`, or
/// `s.len()` if there is none.
pub open spec fn find_from(s: Seq<u8>, from: int, b: u8) -> int
    decreases s.len() - from,
{
    if from < 0 || from >= s.len() {
        s.len() as int
    } else if s[from] == b {
        from
    } else {
        find_from(s, from + 1, b)
    }
}

pub proof fn lemma_find_from(s: Seq<u8>, from: int, b: u8)
    requires
        0 <= from <= s.len(),
    ensures
        from <= find_from(s, from, b) <= s.len(),
        find_from(s, from, b) < s.len() ==> s[find_from(s, from, b)] == b,
        forall|i: int| from <= i < find_from(s, from, b) ==> s[i] != b,
    decreases s.len() - from,
{
    if from < s.len() && s[from] != b {
        lemma_find_from(s, from + 1, b);
    }
}

/// The tokens of `s` from `from` onward, split at every occurrence of `sep`.
/// Splitting the empty string yields one empty token.
pub open spec fn split_from(s: Seq<u8>, from: int, sep: u8) -> Seq<Seq<u8>>
    decreases s.len() - from when 0 <= from <= s.len() via split_from_decreases
{
    let p = find_from(s, from, sep);
    if p >= s.len() {
        seq![s.subrange(from, s.len() as int)]
    } else {
        seq![s.subrange(from, p)] + split_from(s, p + 1, sep)
    }
}

#[via_fn]
proof fn split_from_decreases(s: Seq<u8>, from: int, sep: u8) {
    lemma_find_from(s, from, sep);
}

/// The tokens of `s`, split at every occurrence of `sep`.
pub open spec fn split_at(s: Seq<u8>, sep: u8) -> Seq<Seq<u8>> {
    split_from(s, 0, sep)
}

/// Finds the first occurrence of `b` in `s` at or after `from`.
pub fn find_byte(s: &[u8], from: usize, b: u8) -> (r: usize)
    requires
        from <= s@.len(),
    ensures
        r == find_from(s@, from as int, b),
        from <= r <= s@.len(),
{
    proof {
        lemma_find_from(s@, from as int, b);
    }
    let mut i: usize = from;
    while i < s.len()
        invariant
            from <= i <= s@.len(),
            find_from(s@, from as int, b) == find_from(s@, i as int, b),
        decreases s@.len() - i,
    {
        if s[i] == b {
            return i;
        }
        i = i + 1;
    }
    i
}

/// Reads the value of the decimal octet token `s[lo..hi]`, rejecting
/// leading zeros and values above 255.
pub fn scan_octet(s: &[u8], lo: usize, hi: usize) -> (r: Option<u8>)
    requires
        lo <= hi <= s@.len(),
    ensures
        r == octet_val(s@.subrange(lo as int, hi as int)),
{
    let ghost tok = s@.subrange(lo as int, hi as int);
    let n: usize = hi - lo;
    if n < 1 || n > 3 {
        return None;
    }
    if n > 1 && s[lo] == BYTE_ZERO {
        return None;
    }
    let mut acc: u32 = 0;
    let mut i: usize = lo;
    while i < hi
        invariant
            lo <= i <= hi <= s@.len(),
            tok == s@.subrange(lo as int, hi as int),
            hi - lo <= 3,
            all_dec_digits(tok.subrange(0, i - lo)),
            acc == dec_value(tok.subrange(0, i - lo)),
            acc <= 999,
        decreases hi - i,
    {
        let b = s[i];
        if b < 48 || b > 57 {
            proof {
                assert(tok[i - lo] == b);
                assert(!all_dec_digits(tok));
            }
            return None;
        }
        proof {
            let pre = tok.subrange(0, i - lo);
            let cur = tok.subrange(0, i + 1 - lo);
            assert(cur.drop_last() =~= pre);
            assert(cur.last() == b);
            lemma_dec_value_bound(pre);
        }
        acc = acc * 10 + ((b - 48) as u32);
        i = i + 1;
    }
    proof {
        assert(tok.subrange(0, hi - lo) =~= tok);
    }
    if acc > 255 {
        return None;
    }
    Some(acc as u8)
}

/// Reads the value of the hexadecimal group token `s[lo..hi]`.
pub fn scan_hex_group(s: &[u8], lo: usize, hi: usize) -> (r: Option<u16>)
    requires
        lo <= hi <= s@.len(),
    ensures
        r == hex_group_val(s@.subrange(lo as int, hi as int)),
{
    let ghost tok = s@.subrange(lo as int, hi as int);
    let n: usize = hi - lo;
    if n < 1 || n > 4 {
        return None;
    }
    let mut acc: u32 = 0;
    let mut i: usize = lo;
    while i < hi
        invariant
            lo <= i <= hi <= s@.len(),
            tok == s@.subrange(lo as int, hi as int),
            hi - lo <= 4,
            all_hex_digits(tok.subrange(0, i - lo)),
            acc == hex_value(tok.subrange(0, i - lo)),
            acc <= 0xffff,
        decreases hi - i,
    {
        let b = s[i];
        let d: u32 = if b >= 48 && b <= 57 {
            (b - 48) as u32
        } else if b >= 97 && b <= 102 {
            (b - 87) as u32
        } else if b >= 65 && b <= 70 {
            (b - 55) as u32
        } else {
            proof {
                assert(tok[i - lo] == b);
                assert(!all_hex_digits(tok));
            }
            return None;
        };
        proof {
            let pre = tok.subrange(0, i - lo);
            let cur = tok.subrange(0, i + 1 - lo);
            assert(cur.drop_last() =~= pre);
            assert(cur.last() == b);
            lemma_hex_value_bound(pre);
        }
        acc = acc * 16 + d;
        i = i + 1;
    }
    proof {
        assert(tok.subrange(0, hi - lo) =~= tok);
    }
    Some(acc as u16)
}

/// Reads the value of the prefix-length token `s[lo..hi]`, at most `max`.
pub fn scan_prefix_len(s: &[u8], lo: usize, hi: usize, max: u8) -> (r: Option<u8>)
    requires
        lo <= hi <= s@.len(),
    ensures
        r == prefix_len_val(s@.subrange(lo as int, hi as int), max),
{
    let ghost tok = s@.subrange(lo as int, hi as int);
    let n: usize = hi - lo;
    if n < 1 || n > 3 {
        return None;
    }
    let mut acc: u32 = 0;
    let mut i: usize = lo;
    while i < hi
        invariant
            lo <= i <= hi <= s@.len(),
            tok == s@.subrange(lo as int, hi as int),
            hi - lo <= 3,
            all_dec_digits(tok.subrange(0, i - lo)),
            acc == dec_value(tok.subrange(0, i - lo)),
            acc <= 999,
        decreases hi - i,
    {
        let b = s[i];
        if b < 48 || b > 57 {
            proof {
                assert(tok[i - lo] == b);
                assert(!all_dec_digits(tok));
            }
            return None;
        }
        proof {
            let pre = tok.subrange(0, i - lo);
            let cur = tok.subrange(0, i + 1 - lo);
            assert(cur.drop_last() =~= pre);
            assert(cur.last() == b);
            lemma_dec_value_bound(pre);
        }
        acc = acc * 10 + ((b - 48) as u32);
        i = i + 1;
    }
    proof {
        assert(tok.subrange(0, hi - lo) =~= tok);
    }
    if acc > max as u32 {
        return None;
    }
    Some(acc as u8)
}

} // verus!

