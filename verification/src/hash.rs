//! SHA-256, by which a proof is bound to the minter and to the limit.

use sha2::Digest;
use vstd::prelude::*;

verus! {

/// The SHA-256 digest of `data`, as FIPS 180-4 defines it.
pub uninterp spec fn sha256(data: Seq<u8>) -> Seq<u8>;

/// `sha2::Sha256::digest`, the one-shot form of `new`, `update`, `finalize`.
/// The crate documents it as the SHA-256 of its input; the contract gives
/// that digest its name and claims nothing else of it.
#[verifier::external_body]
pub(crate) fn sha256_digest(data: &[u8]) -> (digest: [u8; 32])
    ensures
        digest@ == sha256(data@),
{
    sha2::Sha256::digest(data).into()
}

} // verus!
