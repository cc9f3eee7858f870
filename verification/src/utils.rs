//! Small helpers shared by the service around the judge core.
use sha2::Digest;
use vstd::prelude::*;

verus! {

/// The SHA-256 digest of a byte sequence: a function of the bytes alone.
pub uninterp spec fn sha256_of(data: Seq<u8>) -> Seq<u8>;

/// Relies on sha2::Sha256 (new, update, finalize): the SHA-256 digest of
/// the input, which depends on the input bytes alone and is 32 bytes long.
#[verifier::external_body]
pub fn sha256(text: &[u8]) -> (r: Vec<u8>)
    ensures
        r@ == sha256_of(text@),
        r@.len() == 32,
{
    let mut hasher = sha2::Sha256::new();
    hasher.update(text);
    hasher.finalize().to_vec()
}

} // verus!
