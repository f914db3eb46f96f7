//! The base64 codec at the text boundary of a key line, behind trusted
//! wrappers: the payload between the algorithm identifier and the comment
//! is the standard-alphabet, `=`-padded base64 text of the key's wire
//! bytes.

use vstd::prelude::*;

verus! {

/// What `base64::encode` returns for the given bytes: the
/// standard-alphabet, `=`-padded base64 text, a function of the input
/// bytes alone.
pub uninterp spec fn b64_encode(b: Seq<u8>) -> Seq<char>;

/// What `base64::decode` returns for the given text: the decoded bytes, a
/// function of the input text alone, or `None` on malformed input.
pub uninterp spec fn b64_decode(s: Seq<char>) -> Option<Seq<u8>>;

/// A character of the standard base64 alphabet, or its `=` padding.
pub open spec fn is_b64_char(c: char) -> bool {
    let u = c as u32;
    (0x41 <= u && u <= 0x5a) || (0x61 <= u && u <= 0x7a) || (0x30 <= u && u <= 0x39) || u == 0x2b
        || u == 0x2f || u == 0x3d
}

/// Relies on `base64::encode`: standard alphabet with `=` padding, four
/// output characters for every three input bytes, and `base64::decode`
/// accepts the output and returns the input bytes.
#[verifier::external_body]
pub fn b64_encode_exec(b: &[u8]) -> (r: String)
    ensures
        r@ == b64_encode(b@),
        r@.len() == 4 * ((b@.len() + 2) / 3),
        forall|i: int| 0 <= i < r@.len() ==> is_b64_char(#[trigger] r@[i]),
        b64_decode(r@) == Some(b@),
{
    base64::encode(b)
}

/// Relies on `base64::decode`: decoding is a function of the input text
/// alone and fails exactly on the inputs it fails on.
#[verifier::external_body]
pub fn b64_decode_exec(s: &str) -> (r: Option<Vec<u8>>)
    ensures
        match r {
            Some(b) => b64_decode(s@) == Some(b@),
            None => b64_decode(s@) is None,
        },
{
    match base64::decode(s) {
        Ok(v) => Some(v),
        Err(_) => None,
    }
}

} // verus!
