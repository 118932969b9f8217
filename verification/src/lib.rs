//! Zero-knowledge proofs for confidential minting.
//!
//! A minter proves that a hidden amount is positive, fits in 64 bits and
//! stays within a daily limit, and that the proof is bound to the minter's
//! key and to the limit by two SHA-256 digests. This crate holds the data
//! model and its byte layouts, the derivation of the public inputs, the
//! constraint relation, and the Groth16 prover and verifier over BN254.
//!
//! Every function here carries a contract that Verus checks. Calls into the
//! cryptographic crates stand behind small functions marked
//! `external_body`; their doc comments say what is taken on trust.

pub mod circuit;
pub mod constraints;
pub mod encoding;
pub mod error;
pub mod field;
pub mod hash;
pub mod mint_proof;
pub mod prover;
pub mod public_inputs;
pub mod r1cs;
pub mod verification;
pub mod witness;

pub use circuit::MintCircuit;
pub use error::ZkpError;
pub use field::FieldElement;
pub use mint_proof::Proof;
pub use prover::MintProver;
pub use public_inputs::MintPublicInputs;
pub use verification::{MintVerifier, OnChainProof, OnChainVerifyingKey};
pub use witness::MintWitness;
