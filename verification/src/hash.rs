//! The Keccak-256 primitive.

use vstd::prelude::*;

verus! {

/// The Keccak-256 digest of `preimage`: the 32 bytes that the hash function
/// assigns to that byte string. The function itself is not modelled; the
/// name stands for its value, which depends on the preimage alone.
pub uninterp spec fn keccak256(preimage: Seq<u8>) -> Seq<u8>;

/// Hashes a 32-byte preimage with `stylus_sdk::crypto::keccak`.
///
/// Trusted, not proved: the bytes returned are the Keccak-256 digest of the
/// preimage, as named by [`keccak256`]. The digest has 32 bytes by its type.
#[verifier::external_body]
pub(crate) fn keccak(preimage: &[u8; 32]) -> (digest: [u8; 32])
    ensures
        digest@ == keccak256(preimage@),
{
    stylus_sdk::crypto::keccak(preimage).0
}

} // verus!
