//! The prover: from a witness to a proof and the public inputs it is for.

use crate::circuit::{lemma_synthesis_closed, mint_relation, MintCircuit};
use crate::error::ZkpError;
use crate::mint_proof::{Groth16Proof, Proof};
use crate::public_inputs::MintPublicInputs;
use crate::r1cs::{system_state, ConstraintSystem};
use crate::witness::MintWitness;
use ark_ff::UniformRand;
use ark_serialize::{CanonicalDeserialize, CanonicalSerialize};
use vstd::prelude::*;
use vstd::string::StringExecFns;

verus! {

/// A prover for the mint relation: the proving key of one trusted setup.
#[verifier::external_body]
pub struct MintProver {
    pub(crate) proving_key: ark_groth16::ProvingKey<ark_bn254::Bn254>,
}

/// The proving key that `bytes` encode, if they encode one.
pub uninterp spec fn decoded_proving_key(bytes: Seq<u8>) -> Option<MintProver>;

/// The compressed encoding of the proving key.
pub uninterp spec fn proving_key_encoding(prover: MintProver) -> Seq<u8>;

/// The lengths of the three queries of the key from which the prover
/// takes a first element: the A query, the B query in G1, the B query in
/// G2.
pub uninterp spec fn query_lengths(prover: MintProver) -> Seq<nat>;

/// Whether `inputs` are the public inputs of a mint with this witness.
pub open spec fn derived_from(
    inputs: MintPublicInputs,
    witness: MintWitness,
    commitment: ([u8; 32], [u8; 32]),
    nonce: u64,
    epoch: u64,
) -> bool {
    &&& inputs.commitment_x == commitment.0
    &&& inputs.commitment_y == commitment.1
    &&& inputs.authority_hash@ == witness.spec_authority_hash()
    &&& inputs.limit_hash@ == witness.spec_limit_hash()
    &&& inputs.nonce == nonce
    &&& inputs.epoch == epoch
}

/// Derives the public inputs of a mint: the commitment, nonce and epoch as
/// given, and the two digests that bind the minter and the limit.
pub fn derive_public_inputs(
    witness: &MintWitness,
    commitment: ([u8; 32], [u8; 32]),
    nonce: u64,
    epoch: u64,
) -> (inputs: MintPublicInputs)
    ensures
        derived_from(inputs, *witness, commitment, nonce, epoch),
{
    MintPublicInputs {
        commitment_x: commitment.0,
        commitment_y: commitment.1,
        authority_hash: witness.compute_authority_hash(),
        limit_hash: witness.compute_limit_hash(),
        nonce,
        epoch,
    }
}

/// Public inputs derived from a witness that keeps the policy stand in the
/// mint relation to it.
pub proof fn lemma_derived_inputs_in_relation(
    inputs: MintPublicInputs,
    witness: MintWitness,
    commitment: ([u8; 32], [u8; 32]),
    nonce: u64,
    epoch: u64,
)
    requires
        witness.is_valid(),
        derived_from(inputs, witness, commitment, nonce, epoch),
    ensures
        mint_relation(witness, inputs),
{
}

impl MintProver {
    /// Whether the key has what proving reads from it without looking: a
    /// first element in each of three queries.
    pub open spec fn usable(&self) -> bool {
        &&& query_lengths(*self).len() == 3
        &&& query_lengths(*self)[0] > 0
        &&& query_lengths(*self)[1] > 0
        &&& query_lengths(*self)[2] > 0
    }

    /// Decodes a proving key from its compressed encoding.
    pub fn from_bytes(bytes: &[u8]) -> (result: Result<MintProver, ZkpError>)
        ensures
            match result {
                Ok(prover) => decoded_proving_key(bytes@) == Some(prover),
                Err(e) => e is SerializationError && decoded_proving_key(bytes@) is None,
            },
    {
        match decode_proving_key(bytes) {
            Ok(prover) => Ok(prover),
            Err(e) => Err(ZkpError::SerializationError(e.to_string())),
        }
    }

    /// Encodes the proving key, compressed. This always succeeds.
    pub fn to_bytes(&self) -> (result: Result<Vec<u8>, ZkpError>)
        ensures
            result matches Ok(bytes) && bytes@ == proving_key_encoding(*self),
    {
        match encode_proving_key(self) {
            Ok(bytes) => Ok(bytes),
            Err(e) => Err(ZkpError::SerializationError(e.to_string())),
        }
    }

    /// Whether the key can be proved with at all.
    pub fn is_usable(&self) -> (usable: bool)
        ensures
            usable == self.usable(),
    {
        let (a, b_g1, b_g2) = query_sizes(self);
        a > 0 && b_g1 > 0 && b_g2 > 0
    }

    /// Proves that `witness` satisfies the mint relation.
    ///
    /// The witness is checked first: one that breaks the policy is refused
    /// with `InvalidWitness` before any proving work. Otherwise the public
    /// inputs are derived, the relation is synthesized with the values of
    /// the mint, and the proof is made with fresh randomness. A proof that
    /// comes back is 128 bytes long and is returned with its public inputs.
    /// Proving succeeds for every witness that keeps the policy, unless the
    /// key lacks a query: that gives `ProvingError`.
    pub fn prove(
        &self,
        witness: &MintWitness,
        commitment: ([u8; 32], [u8; 32]),
        nonce: u64,
        epoch: u64,
    ) -> (result: Result<(Proof, MintPublicInputs), ZkpError>)
        ensures
            result is Ok <==> witness.is_valid() && self.usable(),
            !witness.is_valid() <==> result matches Err(ZkpError::InvalidWitness(_)),
            witness.amount == 0 ==> (result matches Err(ZkpError::InvalidWitness(reason))
                && reason@ == "amount must be positive"@),
            witness.amount > witness.daily_limit ==> (result matches Err(
                ZkpError::InvalidWitness(reason),
            ) && reason@ == "amount exceeds daily limit"@),
            witness.is_valid() && !self.usable() ==> result matches Err(ZkpError::ProvingError(_)),
            result matches Ok((proof, inputs)) ==> {
                &&& derived_from(inputs, *witness, commitment, nonce, epoch)
                &&& proof.bytes@.len() == 128
            },
            result matches Err(e) ==> e is InvalidWitness || e is ProvingError,
    {
        match witness.validate() {
            Ok(()) => {},
            Err(e) => {
                return Err(e);
            },
        }

        let public_inputs = derive_public_inputs(witness, commitment, nonce, epoch);
        let circuit = MintCircuit::from_witness(witness, &public_inputs);

        let mut system = ConstraintSystem::new(false);
        proof {
            lemma_synthesis_closed(circuit, system@);
        }
        circuit.generate_constraints(&mut system)?;

        if !self.is_usable() {
            return Err(ZkpError::ProvingError(String::from_str("the proving key is incomplete")));
        }
        let made = match create_proof(self, system) {
            Ok(made) => made,
            Err(e) => {
                return Err(ZkpError::ProvingError(e.to_string()));
            },
        };
        let proof = Proof::from_arkworks(&made)?;

        Ok((proof, public_inputs))
    }
}

/// `ark_serialize::CanonicalDeserialize::deserialize_compressed` for
/// `ark_groth16::ProvingKey<Bn254>`, reading from a slice. What comes back
/// depends on the bytes alone; the contract gives it its name.
#[verifier::external_body]
fn decode_proving_key(bytes: &[u8]) -> (result: Result<
    MintProver,
    ark_serialize::SerializationError,
>)
    ensures
        match result {
            Ok(prover) => decoded_proving_key(bytes@) == Some(prover),
            Err(_) => decoded_proving_key(bytes@) is None,
        },
{
    ark_groth16::ProvingKey::deserialize_compressed(bytes).map(
        |proving_key| MintProver { proving_key },
    )
}

/// `ark_serialize::CanonicalSerialize::serialize_compressed` of the proving
/// key into a fresh vector. The contract names what is written. Writing
/// into a vector does not fail, and a point is encoded with two flag bits,
/// which its last byte has room for: the call returns `Ok`.
#[verifier::external_body]
fn encode_proving_key(prover: &MintProver) -> (result: Result<
    Vec<u8>,
    ark_serialize::SerializationError,
>)
    ensures
        result is Ok,
        result matches Ok(bytes) ==> bytes@ == proving_key_encoding(*prover),
{
    let mut bytes = Vec::new();
    prover.proving_key.serialize_compressed(&mut bytes).map(|_| bytes)
}

/// The lengths of the fields `a_query`, `b_g1_query` and `b_g2_query` of
/// the proving key.
#[verifier::external_body]
fn query_sizes(prover: &MintProver) -> (sizes: (usize, usize, usize))
    ensures
        query_lengths(*prover) == seq![sizes.0 as nat, sizes.1 as nat, sizes.2 as nat],
{
    let key = &prover.proving_key;
    (key.a_query.len(), key.b_g1_query.len(), key.b_g2_query.len())
}

/// `ark_groth16::Groth16::create_proof_with_reduction_and_matrices`, with
/// two scalars drawn from `ark_std::rand::thread_rng` and with the matrices
/// and the assignment of the finalized system: what `Groth16::prove` does
/// once the circuit is synthesized. The system must hold a value for every
/// variable and no constraint on a variable that it lacks, and the key a
/// first element in its queries: the crate indexes both without a check.
/// Which proof comes back depends on the scalars drawn, so nothing is
/// claimed of the proof. That one comes back does not: the call fails only
/// where there is no evaluation domain for the constraints and the public
/// inputs together, and the scalar field of BN254 has one for every size up
/// to `2^28`.
#[verifier::external_body]
fn create_proof(prover: &MintProver, system: ConstraintSystem) -> (result: Result<
    Groth16Proof,
    ark_relations::r1cs::SynthesisError,
>)
    requires
        system_state(system).assigned(),
        system_state(system).closed(),
        prover.usable(),
    ensures
        system_state(system).constraints.len() + system_state(system).num_instance <= 0x1000_0000
            ==> result is Ok,
{
    let mut rng = ark_std::rand::thread_rng();
    let (r, s) = (ark_bn254::Fr::rand(&mut rng), ark_bn254::Fr::rand(&mut rng));
    let mut system = system.inner;
    system.finalize();
    let matrices = system.to_matrices().ok_or(ark_relations::r1cs::SynthesisError::MissingCS)?;
    let assignment = [system.instance_assignment, system.witness_assignment].concat();
    ark_groth16::Groth16::<ark_bn254::Bn254>::create_proof_with_reduction_and_matrices(
        &prover.proving_key,
        r,
        s,
        &matrices,
        system.num_instance_variables,
        system.num_constraints,
        &assignment,
    ).map(|inner| Groth16Proof { inner })
}

} // verus!
