//! Keccak-256, as `tiny_keccak` computes it.

use tiny_keccak::{Hasher, Keccak};
use vstd::prelude::*;

verus! {

/// The Keccak-256 digest of `data`.
pub uninterp spec fn keccak256_digest(data: Seq<u8>) -> Seq<u8>;

/// Hashes `data` with `tiny_keccak`: `Keccak::v256()`, one `update` with
/// `data`, then `finalize` into a 32-byte buffer.
///
/// The contract names the digest and says that it depends on `data` alone;
/// what the digest is, is left to the hash function.
#[verifier::external_body]
pub(crate) fn keccak256(data: &[u8]) -> (res: [u8; 32])
    ensures
        res@ == keccak256_digest(data@),
{
    let mut output = [0u8; 32];
    let mut hasher = Keccak::v256();
    hasher.update(data);
    hasher.finalize(&mut output);
    output
}

} // verus!
