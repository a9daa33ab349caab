//! The cryptographic hash that seals a block.

use sha3::{Digest, Sha3_256};
use vstd::prelude::*;

verus! {

/// The SHA3-256 digest of a byte string.
///
/// The function is computed by the `sha3` crate and is not defined here;
/// contracts only rely on it being a function of its input.
pub uninterp spec fn sha3_256(data: Seq<u8>) -> Seq<u8>;

/// Hashes `data` with `sha3::Sha3_256::digest`.
///
/// Trusted: the digest that the `sha3` crate returns for a byte string is
/// the value that `sha3_256` names for that byte string.
#[verifier::external_body]
pub(crate) fn sha3_256_digest(data: &[u8]) -> (out: Vec<u8>)
    ensures
        out@ == sha3_256(data@),
{
    Sha3_256::digest(data).to_vec()
}

} // verus!
