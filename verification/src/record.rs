//! The loosely-typed nested record that a binary lookup database yields for
//! an address, and verified extraction of typed fields from it, with the
//! missing-field defaults applied in one place.

use vstd::prelude::*;
use vstd::string::StringExecFns;

verus! {

/// A schema-free nested value decoded from a lookup database record.
/// Floating-point numbers are carried as the bit pattern of their 64-bit
/// form, so that the record stays within plain data.
#[derive(Debug)]
pub enum RecordValue {
    Null,
    Bool(bool),
    Uint(u64),
    Int(i64),
    FloatBits(u64),
    Text(String),
    List(Vec<RecordValue>),
    Dict(Vec<(String, RecordValue)>),
}

/// The value under the first entry of `entries` whose key reads `key`.
pub open spec fn spec_map_get(entries: Seq<(String, RecordValue)>, key: Seq<char>) -> Option<
    RecordValue,
>
    decreases entries.len(),
{
    if entries.len() == 0 {
        None
    } else if entries[0].0@ == key {
        Some(entries[0].1)
    } else {
        spec_map_get(entries.subrange(1, entries.len() as int), key)
    }
}

/// The value under `key` when `v` is a map that carries it.
pub open spec fn spec_get(v: RecordValue, key: Seq<char>) -> Option<RecordValue> {
    match v {
        RecordValue::Dict(es) => spec_map_get(es@, key),
        _ => None,
    }
}

/// The value under `key` of an optional record.
pub open spec fn sget(v: Option<RecordValue>, key: Seq<char>) -> Option<RecordValue> {
    match v {
        Some(rv) => spec_get(rv, key),
        None => None,
    }
}

/// The mathematical value of an optional borrowed record.
pub open spec fn o_rv(v: Option<&RecordValue>) -> Option<RecordValue> {
    match v {
        Some(x) => Some(*x),
        None => None,
    }
}

proof fn lemma_spec_map_get_skip(entries: Seq<(String, RecordValue)>, key: Seq<char>, i: int)
    requires
        0 <= i <= entries.len(),
        forall|j: int| 0 <= j < i ==> (#[trigger] entries[j]).0@ != key,
    ensures
        spec_map_get(entries, key) == spec_map_get(
            entries.subrange(i, entries.len() as int),
            key,
        ),
    decreases i,
{
    if i > 0 {
        lemma_spec_map_get_skip(entries, key, i - 1);
        let tail = entries.subrange(i - 1, entries.len() as int);
        assert(tail[0] == entries[i - 1]);
        assert(tail.subrange(1, tail.len() as int) =~= entries.subrange(
            i,
            entries.len() as int,
        ));
        assert(tail[0].0@ != key);
        assert(spec_map_get(tail, key) == spec_map_get(tail.subrange(1, tail.len() as int), key));
    } else {
        assert(entries.subrange(0, entries.len() as int) =~= entries);
    }
}

/// Looks `key` up in an optional record, yielding the value of the first
/// entry under that key when the record is a map that carries it.
#[verifier::loop_isolation(false)]
pub fn oget<'a>(v: Option<&'a RecordValue>, key: &str) -> (r: Option<&'a RecordValue>)
    ensures
        o_rv(r) == sget(o_rv(v), key@),
{
    let k = String::from_str(key);
    match v {
        Some(RecordValue::Dict(es)) => {
            let ghost entries = es@;
            let mut i: usize = 0;
            while i < es.len()
                invariant
                    0 <= i <= entries.len(),
                    forall|j: int| 0 <= j < i ==> (#[trigger] entries[j]).0@ != key@,
                decreases entries.len() - i,
            {
                if es[i].0 == k {
                    proof {
                        lemma_spec_map_get_skip(entries, key@, i as int);
                        let tail = entries.subrange(i as int, entries.len() as int);
                        assert(tail[0] == entries[i as int]);
                    }
                    return Some(&es[i].1);
                }
                i = i + 1;
            }
            proof {
                lemma_spec_map_get_skip(entries, key@, entries.len() as int);
                assert(entries.subrange(entries.len() as int, entries.len() as int)
                    =~= Seq::<(String, RecordValue)>::empty());
            }
            None
        },
        _ => None,
    }
}

/// The text carried by a value, or the empty string when it is absent or not
/// text.
pub open spec fn text_of(v: Option<RecordValue>) -> Seq<char> {
    match v {
        Some(RecordValue::Text(s)) => s@,
        _ => Seq::<char>::empty(),
    }
}

/// Clones the text carried by a value, or yields the empty string.
pub fn text_or_empty(v: Option<&RecordValue>) -> (r: String)
    ensures
        r@ == text_of(o_rv(v)),
{
    match v {
        Some(RecordValue::Text(s)) => s.clone(),
        _ => String::new(),
    }
}

/// The unsigned number carried by a value when it fits in 32 bits, or zero.
pub open spec fn u32_of(v: Option<RecordValue>) -> u32 {
    match v {
        Some(RecordValue::Uint(n)) => if n <= u32::MAX as u64 {
            n as u32
        } else {
            0
        },
        _ => 0,
    }
}

/// Reads the unsigned number carried by a value when it fits in 32 bits, or
/// zero.
pub fn u32_or_zero(v: Option<&RecordValue>) -> (r: u32)
    ensures
        r == u32_of(o_rv(v)),
{
    match v {
        Some(RecordValue::Uint(n)) => {
            if *n <= u32::MAX as u64 {
                *n as u32
            } else {
                0
            }
        },
        _ => 0,
    }
}

/// The bit pattern of the floating-point number carried by a value, or the
/// bits of zero.
pub open spec fn float_bits_of(v: Option<RecordValue>) -> u64 {
    match v {
        Some(RecordValue::FloatBits(b)) => b,
        _ => 0,
    }
}

/// Reads the bit pattern of the floating-point number carried by a value, or
/// the bits of zero.
pub fn float_bits_or_zero(v: Option<&RecordValue>) -> (r: u64)
    ensures
        r == float_bits_of(o_rv(v)),
{
    match v {
        Some(RecordValue::FloatBits(b)) => *b,
        _ => 0,
    }
}

/// The text carried by a value, kept optional: absent or non-text is `None`.
pub open spec fn opt_text_of(v: Option<RecordValue>) -> Option<Seq<char>> {
    match v {
        Some(RecordValue::Text(s)) => Some(s@),
        _ => None,
    }
}

/// The mathematical value of an optional string.
pub open spec fn o_str(r: Option<String>) -> Option<Seq<char>> {
    match r {
        Some(s) => Some(s@),
        None => None,
    }
}

/// Clones the text carried by a value, kept optional.
pub fn opt_text(v: Option<&RecordValue>) -> (r: Option<String>)
    ensures
        o_str(r) == opt_text_of(o_rv(v)),
{
    match v {
        Some(RecordValue::Text(s)) => Some(s.clone()),
        _ => None,
    }
}

/// The float bit pattern carried by a value, kept optional.
pub open spec fn opt_float_bits_of(v: Option<RecordValue>) -> Option<u64> {
    match v {
        Some(RecordValue::FloatBits(b)) => Some(b),
        _ => None,
    }
}

/// Reads the float bit pattern carried by a value, kept optional.
pub fn opt_float_bits(v: Option<&RecordValue>) -> (r: Option<u64>)
    ensures
        r == opt_float_bits_of(o_rv(v)),
{
    match v {
        Some(RecordValue::FloatBits(b)) => Some(*b),
        _ => None,
    }
}

/// The first element of the list carried by a value.
pub open spec fn first_of(v: Option<RecordValue>) -> Option<RecordValue> {
    match v {
        Some(RecordValue::List(items)) => if items@.len() > 0 {
            Some(items@[0])
        } else {
            None
        },
        _ => None,
    }
}

/// Borrows the first element of the list carried by a value.
pub fn first_elem(v: Option<&RecordValue>) -> (r: Option<&RecordValue>)
    ensures
        o_rv(r) == first_of(o_rv(v)),
{
    match v {
        Some(RecordValue::List(items)) => {
            if items.len() > 0 {
                Some(&items[0])
            } else {
                None
            }
        },
        _ => None,
    }
}

/// The texts of a list value, entry by entry, or nothing when the value is
/// absent or not a list. A list entry that is not text reads as the empty
/// string.
pub open spec fn text_list_of(v: Option<RecordValue>) -> Option<Seq<Seq<char>>> {
    match v {
        Some(RecordValue::List(items)) => Some(
            items@.map_values(|it: RecordValue| text_of(Some(it))),
        ),
        _ => None,
    }
}

/// The mathematical value of an optional list of strings.
pub open spec fn o_texts(r: Option<Vec<String>>) -> Option<Seq<Seq<char>>> {
    match r {
        Some(v) => Some(v.deep_view()),
        None => None,
    }
}

/// Clones the texts of a list value; absent stays absent, and is distinct
/// from an empty list.
#[verifier::loop_isolation(false)]
pub fn text_list(v: Option<&RecordValue>) -> (r: Option<Vec<String>>)
    ensures
        o_texts(r) == text_list_of(o_rv(v)),
{
    match v {
        Some(RecordValue::List(items)) => {
            let ghost want = items@.map_values(|it: RecordValue| text_of(Some(it)));
            let mut out: Vec<String> = Vec::new();
            let mut i: usize = 0;
            while i < items.len()
                invariant
                    0 <= i <= items@.len(),
                    out.deep_view() =~= want.subrange(0, i as int),
                decreases items@.len() - i,
            {
                let t = match &items[i] {
                    RecordValue::Text(s) => s.clone(),
                    _ => String::new(),
                };
                out.push(t);
                proof {
                    assert(out.deep_view() =~= want.subrange(0, i + 1 as int));
                }
                i = i + 1;
            }
            proof {
                assert(want.subrange(0, items@.len() as int) =~= want);
            }
            Some(out)
        },
        _ => None,
    }
}

} // verus!
