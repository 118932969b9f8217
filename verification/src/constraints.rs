//! The constraint budget of the relation, one figure for each part.
//!
//! The figures are published with the relation, as the weight that each
//! part is allowed. They are a budget, not a count: the relation that
//! `circuit` synthesizes is far below it, and `lemma_relation_within_budget`
//! states how the two stand.

use crate::circuit::CONSTRAINT_COUNT;
use vstd::prelude::*;

verus! {

/// The commitment to the amount.
pub const PEDERSEN_COMMITMENT: usize = 12_400;

/// The proof that the amount fits in 64 bits.
pub const RANGE_PROOF_64: usize = 18_200;

/// The comparison of the amount with zero and with the daily limit.
pub const POLICY_CHECK: usize = 2_100;

/// SHA-256 of the minter's public key.
pub const SHA256_AUTHORITY: usize = 8_500;

/// SHA-256 of the padded daily limit.
pub const SHA256_LIMIT: usize = 8_500;

/// Everything else.
pub const MISC: usize = 300;

/// The whole relation.
pub const TOTAL: usize = PEDERSEN_COMMITMENT + RANGE_PROOF_64 + POLICY_CHECK + SHA256_AUTHORITY
    + SHA256_LIMIT + MISC;

/// The total that the published figures must add up to.
pub const TARGET: usize = 50_000;

/// The parts add up to the target.
pub proof fn lemma_budget_met()
    ensures
        TOTAL == TARGET,
        TOTAL == PEDERSEN_COMMITMENT + RANGE_PROOF_64 + POLICY_CHECK + SHA256_AUTHORITY
            + SHA256_LIMIT + MISC,
{
}

/// The relation that is synthesized stays within the budget: it has no more
/// constraints than the range and policy parts are allowed, which are the
/// parts that it enforces by constraints of its own, and so no more than
/// the total.
pub proof fn lemma_relation_within_budget()
    ensures
        CONSTRAINT_COUNT <= RANGE_PROOF_64 + POLICY_CHECK + MISC,
        CONSTRAINT_COUNT <= TOTAL,
{
}

} // verus!
