//! Keccak-256, the hash of the accumulator and of message leaves.

use vstd::prelude::*;
use crate::primitives::H256;

verus! {

/// The Keccak-256 digest of a byte string.
pub uninterp spec fn keccak256_digest(data: Seq<u8>) -> Seq<u8>;

/// Hashes `data` with `ethers::utils::keccak256`. The result is the
/// Keccak-256 digest of exactly these bytes; equal inputs give equal digests.
#[verifier::external_body]
pub(crate) fn keccak256(data: &Vec<u8>) -> (digest: H256)
    ensures
        digest@ == keccak256_digest(data@),
{
    H256 { bytes: ethers::utils::keccak256(data.as_slice()) }
}

} // verus!
