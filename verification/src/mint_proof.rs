//! Proofs: the bytes that travel, and the group elements that they encode.

use crate::error::ZkpError;
use ark_serialize::{CanonicalDeserialize, CanonicalSerialize};
use vstd::prelude::*;
use vstd::string::StringExecFns;

verus! {

/// The length of a compressed proof: a point of G1, one of G2, one of G1.
pub const PROOF_LEN: usize = 128;

/// A Groth16 proof in its compressed encoding.
///
/// The bytes are kept as they came: whether they encode a proof at all is
/// found out by `to_arkworks`.
#[derive(Clone, Debug)]
pub struct Proof {
    /// The encoded proof.
    pub bytes: Vec<u8>,
}

/// A decoded proof: three points that lie on their curves, in the right
/// subgroups.
#[verifier::external_body]
pub struct Groth16Proof {
    pub(crate) inner: ark_groth16::Proof<ark_bn254::Bn254>,
}

/// The proof that `bytes` encode, if they encode one.
pub uninterp spec fn decoded_proof(bytes: Seq<u8>) -> Option<Groth16Proof>;

/// The compressed encoding of a proof. It is always 128 bytes long.
pub uninterp spec fn proof_encoding(proof: Groth16Proof) -> Seq<u8>;

impl Proof {
    /// Encodes a decoded proof. This always succeeds, and gives 128 bytes.
    pub fn from_arkworks(proof: &Groth16Proof) -> (result: Result<Proof, ZkpError>)
        ensures
            result matches Ok(encoded) && encoded.bytes@ == proof_encoding(*proof)
                && encoded.bytes@.len() == 128,
    {
        match encode_proof(proof) {
            Ok(bytes) => Ok(Proof { bytes }),
            Err(e) => Err(ZkpError::SerializationError(e.to_string())),
        }
    }

    /// Whether the bytes are a proof: there are 128 of them, and they
    /// decode.
    pub open spec fn well_formed(&self) -> bool {
        self.bytes@.len() == 128 && decoded_proof(self.bytes@) is Some
    }

    /// Decodes the proof. Malformed bytes are refused: any length but 128,
    /// a coordinate that is no field element, a point off the curve or
    /// outside the subgroup.
    pub fn to_arkworks(&self) -> (result: Result<Groth16Proof, ZkpError>)
        ensures
            match result {
                Ok(proof) => self.well_formed() && decoded_proof(self.bytes@) == Some(proof),
                Err(e) => e is SerializationError && !self.well_formed(),
            },
            self.bytes@.len() != 128 ==> result matches Err(ZkpError::SerializationError(_)),
    {
        if self.bytes.len() != PROOF_LEN {
            return Err(
                ZkpError::SerializationError(String::from_str("a proof is 128 bytes long")),
            );
        }
        match decode_proof(self.bytes.as_slice()) {
            Ok(proof) => Ok(proof),
            Err(e) => Err(ZkpError::SerializationError(e.to_string())),
        }
    }

    /// The number of bytes held.
    pub fn size(&self) -> (n: usize)
        ensures
            n == self.bytes@.len(),
    {
        self.bytes.len()
    }

    /// The bytes held.
    pub fn to_bytes(&self) -> (bytes: &[u8])
        ensures
            bytes@ == self.bytes@,
    {
        self.bytes.as_slice()
    }

    /// Takes bytes as a proof, unexamined.
    pub fn from_bytes(bytes: Vec<u8>) -> (proof: Proof)
        ensures
            proof.bytes@ == bytes@,
    {
        Proof { bytes }
    }
}

/// `ark_serialize::CanonicalSerialize::serialize_compressed` of
/// `ark_groth16::Proof<Bn254>` into a fresh vector. The contract names what
/// is written and states its length: 32 bytes for each point of G1 and 64
/// for the point of G2. Writing into a vector does not fail, and a point is
/// encoded with two flag bits, which its last byte has room for: the call
/// returns `Ok`.
#[verifier::external_body]
fn encode_proof(proof: &Groth16Proof) -> (result: Result<
    Vec<u8>,
    ark_serialize::SerializationError,
>)
    ensures
        result is Ok,
        result matches Ok(bytes) ==> bytes@ == proof_encoding(*proof) && bytes@.len() == 128,
{
    let mut bytes = Vec::new();
    proof.inner.serialize_compressed(&mut bytes).map(|_| bytes)
}

/// `ark_serialize::CanonicalDeserialize::deserialize_compressed` for
/// `ark_groth16::Proof<Bn254>`, reading from a slice. What comes back
/// depends on the bytes alone; the contract gives it its name.
#[verifier::external_body]
fn decode_proof(bytes: &[u8]) -> (result: Result<Groth16Proof, ark_serialize::SerializationError>)
    ensures
        match result {
            Ok(proof) => decoded_proof(bytes@) == Some(proof),
            Err(_) => decoded_proof(bytes@) is None,
        },
{
    ark_groth16::Proof::deserialize_compressed(bytes).map(|inner| Groth16Proof { inner })
}

} // verus!
