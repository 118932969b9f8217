//! The private witness of a mint, its policy check and its hash bindings.

use crate::encoding::{
    be_bytes,
    be_value,
    le_bytes,
    lemma_le_bytes_len,
    lemma_le_value_of_le_bytes_u64,
    u64_to_le_bytes,
    zeros,
};
use crate::error::ZkpError;
use crate::hash::{sha256, sha256_digest};
use rand::RngCore;
use vstd::prelude::*;
use vstd::string::StringExecFns;

verus! {

/// What the minter knows and the proof hides.
#[derive(Clone, Debug)]
pub struct MintWitness {
    /// The amount to mint.
    pub amount: u64,
    /// The blinding factor of the commitment, a 256-bit scalar.
    pub blinding: [u8; 32],
    /// The minter's public key.
    pub pubkey: [u8; 32],
    /// The most that policy allows per day.
    pub daily_limit: u64,
}

/// The 32 bytes that are hashed to bind a limit: the limit as a big-endian
/// number, padded with zero bytes on the left.
pub open spec fn limit_preimage(daily_limit: u64) -> Seq<u8> {
    zeros(24) + be_bytes(daily_limit as nat, 8)
}

impl MintWitness {
    /// The minting policy: a positive amount within the daily limit.
    pub open spec fn is_valid(&self) -> bool {
        0 < self.amount <= self.daily_limit
    }

    /// The digest that binds the proof to the minter.
    pub open spec fn spec_authority_hash(&self) -> Seq<u8> {
        sha256(self.pubkey@)
    }

    /// The digest that binds the proof to the daily limit.
    pub open spec fn spec_limit_hash(&self) -> Seq<u8> {
        sha256(limit_preimage(self.daily_limit))
    }

    /// A witness with a freshly drawn blinding factor.
    pub fn new(amount: u64, pubkey: [u8; 32], daily_limit: u64) -> (witness: MintWitness)
        ensures
            witness.amount == amount,
            witness.pubkey == pubkey,
            witness.daily_limit == daily_limit,
    {
        let blinding = random_blinding();
        MintWitness { amount, blinding, pubkey, daily_limit }
    }

    /// Checks the minting policy, and says which rule is broken.
    pub fn validate(&self) -> (result: Result<(), ZkpError>)
        ensures
            result is Ok <==> self.is_valid(),
            self.amount == 0 ==> (result matches Err(ZkpError::InvalidWitness(reason))
                && reason@ == "amount must be positive"@),
            self.amount > self.daily_limit ==> (result matches Err(
                ZkpError::InvalidWitness(reason),
            ) && reason@ == "amount exceeds daily limit"@),
    {
        if self.amount == 0 {
            return Err(ZkpError::InvalidWitness(String::from_str("amount must be positive")));
        }
        if self.amount > self.daily_limit {
            return Err(ZkpError::InvalidWitness(String::from_str("amount exceeds daily limit")));
        }
        Ok(())
    }

    /// SHA-256 of the minter's public key.
    pub fn compute_authority_hash(&self) -> (digest: [u8; 32])
        ensures
            digest@ == self.spec_authority_hash(),
    {
        sha256_digest(&self.pubkey)
    }

    /// SHA-256 of the daily limit, written as 32 big-endian bytes.
    pub fn compute_limit_hash(&self) -> (digest: [u8; 32])
        ensures
            digest@ == self.spec_limit_hash(),
    {
        let padded = pad_limit(self.daily_limit);
        sha256_digest(&padded)
    }
}

/// Writes a limit as the 32 bytes that are hashed to bind it.
pub fn pad_limit(daily_limit: u64) -> (padded: [u8; 32])
    ensures
        padded@ == limit_preimage(daily_limit),
{
    let low = u64_to_le_bytes(daily_limit);
    let mut padded: [u8; 32] = [0u8; 32];
    let mut i: usize = 0;
    while i < 8
        invariant
            i <= 8,
            low@.len() == 8,
            padded@.len() == 32,
            forall|k: int| 0 <= k < 24 ==> padded@[k] == 0u8,
            forall|k: int| 24 <= k < 24 + i ==> padded@[k] == low@[31 - k],
        decreases 8 - i,
    {
        padded[24 + i] = low[7 - i];
        i = i + 1;
    }
    proof {
        lemma_le_bytes_len(daily_limit as nat, 8);
        assert(padded@ =~= zeros(24) + low@.reverse());
    }
    padded
}

/// Two limits with the same preimage are the same limit: the hash binds the
/// limit itself, no coarser value.
pub proof fn lemma_limit_preimage_injective(a: u64, b: u64)
    requires
        limit_preimage(a) == limit_preimage(b),
    ensures
        a == b,
{
    let da = le_bytes(a as nat, 8);
    let db = le_bytes(b as nat, 8);
    lemma_le_value_of_le_bytes_u64(a);
    lemma_le_value_of_le_bytes_u64(b);
    assert(limit_preimage(a).len() == 32);
    assert forall|k: int| 0 <= k < 8 implies da[k] == db[k] by {
        assert(limit_preimage(a)[31 - k] == da.reverse()[7 - k]);
        assert(limit_preimage(b)[31 - k] == db.reverse()[7 - k]);
    }
    assert(da =~= db);
}

/// The preimage is always 32 bytes, and its last eight bytes are the limit.
pub proof fn lemma_limit_preimage_layout(daily_limit: u64)
    ensures
        limit_preimage(daily_limit).len() == 32,
        forall|k: int| 0 <= k < 24 ==> limit_preimage(daily_limit)[k] == 0u8,
        be_value(limit_preimage(daily_limit).subrange(24, 32)) == daily_limit,
{
    let d = le_bytes(daily_limit as nat, 8);
    lemma_le_value_of_le_bytes_u64(daily_limit);
    assert(limit_preimage(daily_limit).subrange(24, 32) =~= d.reverse());
    assert(d.reverse().reverse() =~= d);
}

/// The two bindings are functions of the key and of the limit alone:
/// witnesses that agree on them have the same digests, whatever the amount
/// and the blinding factor are.
pub proof fn lemma_bindings_deterministic(a: MintWitness, b: MintWitness)
    ensures
        a.pubkey == b.pubkey ==> a.spec_authority_hash() == b.spec_authority_hash(),
        a.daily_limit == b.daily_limit ==> a.spec_limit_hash() == b.spec_limit_hash(),
{
}

/// `rand::thread_rng` and `rand::RngCore::fill_bytes`: 32 bytes from the
/// thread's generator. Nothing is claimed of them.
#[verifier::external_body]
fn random_blinding() -> [u8; 32] {
    let mut blinding = [0u8; 32];
    rand::thread_rng().fill_bytes(&mut blinding);
    blinding
}

} // verus!
