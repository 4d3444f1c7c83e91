//! The boundary between verified byte building and `String` values: ASCII
//! byte runs become strings, and numbers become their decimal text.

use vstd::prelude::*;
use vstd::string::StringSliceAdditionalSpecFns;
use vstd::utf8::encode_utf8;

use crate::ip::{dec_token, lemma_dec_token};

verus! {

/// The UTF-8 bytes of a string value.
pub open spec fn string_bytes(s: String) -> Seq<u8> {
    encode_utf8(s@)
}

/// The characters standing for a run of ASCII bytes.
pub open spec fn ascii_chars(v: Seq<u8>) -> Seq<char> {
    v.map_values(|b: u8| b as char)
}

/// Relies on String::from_utf8: a run of bytes below 128 is valid UTF-8 and
/// decodes to exactly those characters, and the string's bytes are the run
/// itself.
#[verifier::external_body]
pub fn ascii_to_string(v: Vec<u8>) -> (r: String)
    requires
        forall|i: int| 0 <= i < v@.len() ==> #[trigger] v@[i] < 128,
    ensures
        r@ == ascii_chars(v@),
        string_bytes(r) == v@,
{
    String::from_utf8(v).unwrap_or_default()
}

/// The decimal text of a number, as characters.
pub open spec fn dec_chars(n: nat) -> Seq<char> {
    ascii_chars(dec_token(n))
}

/// Renders a number as its canonical decimal text.
pub fn u32_to_dec_string(n: u32) -> (r: String)
    ensures
        r@ == dec_chars(n as nat),
{
    let mut v: Vec<u8> = Vec::new();
    crate::ip::push_dec(&mut v, n);
    proof {
        lemma_dec_token(n as nat);
        assert(v@ =~= dec_token(n as nat));
    }
    ascii_to_string(v)
}

} // verus!
