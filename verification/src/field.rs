//! Elements of the scalar field of BN254, held as plain bytes.
//!
//! The proving system computes over the integers modulo a 254-bit prime.
//! An element is kept here as the 32 bytes of its least residue, least
//! significant byte first, so that contracts can speak of the number itself.

use crate::encoding::{
    le_value,
    lemma_le_value_zero_extended,
    u64_to_le_bytes,
    zeros,
};
use ark_ff::{BigInteger, PrimeField};
use vstd::prelude::*;

verus! {

/// The order of the scalar field of BN254.
pub open spec fn fr_modulus() -> nat {
    21888242871839275222246405745257275088548364400416034343698204186575808495617nat
}

/// A scalar: a number below `fr_modulus()`.
#[derive(Clone, Copy, Debug, PartialEq, Eq)]
pub struct FieldElement {
    bytes: [u8; 32],
}

impl View for FieldElement {
    type V = nat;

    /// The number that the element is.
    closed spec fn view(&self) -> nat {
        le_value(self.bytes@)
    }
}

impl FieldElement {
    #[verifier::type_invariant]
    spec fn reduced(self) -> bool {
        le_value(self.bytes@) < fr_modulus()
    }

    /// Embeds a 64-bit number: the element is the number itself.
    pub fn from_u64(x: u64) -> (e: FieldElement)
        ensures
            e@ == x,
    {
        let low = u64_to_le_bytes(x);
        let mut bytes: [u8; 32] = [0u8; 32];
        let mut i: usize = 0;
        while i < 8
            invariant
                i <= 8,
                low@.len() == 8,
                bytes@.len() == 32,
                forall|k: int| 0 <= k < i ==> bytes@[k] == low@[k],
                forall|k: int| i <= k < 32 ==> bytes@[k] == 0u8,
            decreases 8 - i,
        {
            bytes[i] = low[i];
            i = i + 1;
        }
        proof {
            assert(bytes@ =~= low@ + zeros(24));
            lemma_le_value_zero_extended(low@, 24);
        }
        FieldElement { bytes }
    }

    /// Reads 32 bytes as a number, least significant byte first, and reduces
    /// it modulo the field order.
    pub fn from_le_bytes_mod_order(bytes: &[u8; 32]) -> (e: FieldElement)
        ensures
            e@ == le_value(bytes@) % fr_modulus(),
    {
        let reduced = reduce_le_bytes(bytes);
        FieldElement { bytes: reduced }
    }

    /// The 32 bytes of the element, least significant first.
    pub fn to_le_bytes(&self) -> (bytes: [u8; 32])
        ensures
            le_value(bytes@) == self@,
            self@ < fr_modulus(),
    {
        proof {
            use_type_invariant(self);
        }
        self.bytes
    }
}

/// Every 64-bit number is its own residue: the field order is larger.
pub proof fn lemma_u64_below_modulus(x: u64)
    ensures
        (x as nat) < fr_modulus(),
        (x as nat) % fr_modulus() == x,
{
}

/// `ark_ff::PrimeField::from_le_bytes_mod_order` on the scalar field of
/// `ark_bn254`, followed by the element's canonical integer written as 32
/// little-endian bytes (`into_bigint`, `to_bytes_le`). The crate documents
/// that the bytes are read little-endian and reduced modulo the field order;
/// the contract says that the bytes handed back stand for that residue.
#[verifier::external_body]
fn reduce_le_bytes(bytes: &[u8; 32]) -> (reduced: [u8; 32])
    ensures
        le_value(reduced@) == le_value(bytes@) % fr_modulus(),
{
    let element = ark_bn254::Fr::from_le_bytes_mod_order(bytes);
    let mut reduced = [0u8; 32];
    reduced.copy_from_slice(&element.into_bigint().to_bytes_le());
    reduced
}

} // verus!
