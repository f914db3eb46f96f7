//! The opaque 32-byte digest used for fingerprints, behind a trusted
//! wrapper.

use vstd::prelude::*;
use crypto::digest::Digest;

verus! {

/// What the SHA-256 digest of the given bytes is: an opaque 32-byte
/// value, a function of the input bytes alone.
pub uninterp spec fn sha256(b: Seq<u8>) -> Seq<u8>;

/// Relies on `crypto::sha2::Sha256` (through `crypto::digest::Digest`):
/// the 32-byte SHA-256 digest of the input, a function of the input bytes
/// alone.
#[verifier::external_body]
pub fn sha256_exec(b: &[u8]) -> (r: Vec<u8>)
    ensures
        r@ == sha256(b@),
        r@.len() == 32,
{
    let mut h = crypto::sha2::Sha256::new();
    h.input(b);
    let mut out: [u8; 32] = [0u8; 32];
    h.result(&mut out);
    out.to_vec()
}

} // verus!
