//! The error type shared by every fallible operation of the crate.

use vstd::prelude::*;
use vstd::string::StringExecFns;

verus! {

#[verifier::external_type_specification]
#[verifier::external_body]
pub struct ExSerializationError(ark_serialize::SerializationError);

#[verifier::external_type_specification]
#[verifier::external_body]
pub struct ExSynthesisError(ark_relations::r1cs::SynthesisError);

/// What can go wrong while building, proving, verifying or decoding.
///
/// A proof that is well formed but does not satisfy the relation is not an
/// error: verification answers `Ok(false)` for it.
#[derive(Debug)]
pub enum ZkpError {
    /// The witness breaks the minting policy; the text says which rule.
    InvalidWitness(String),
    /// The proving system failed; the text is its own description.
    ProvingError(String),
    /// A proof was required to verify and did not.
    VerificationFailed,
    /// Bytes of a key or a proof could not be decoded or encoded.
    SerializationError(String),
    /// A key file could not be read or written.
    IoError(String),
    /// Public-input bytes of the wrong length.
    InvalidPublicInput,
}

impl ZkpError {
    /// The text shown for this error.
    pub open spec fn spec_message(&self) -> Seq<char> {
        match self {
            ZkpError::InvalidWitness(reason) => "Invalid witness: "@ + reason@,
            ZkpError::ProvingError(reason) => "Proof generation failed: "@ + reason@,
            ZkpError::VerificationFailed => "Proof verification failed"@,
            ZkpError::SerializationError(reason) => "Serialization error: "@ + reason@,
            ZkpError::IoError(reason) => "IO error: "@ + reason@,
            ZkpError::InvalidPublicInput => "Invalid public input"@,
        }
    }

    /// Renders the error for a human reader.
    pub fn message(&self) -> (text: String)
        ensures
            text@ == self.spec_message(),
    {
        match self {
            ZkpError::InvalidWitness(reason) => String::from_str("Invalid witness: ").concat(
                reason.as_str(),
            ),
            ZkpError::ProvingError(reason) => String::from_str("Proof generation failed: ").concat(
                reason.as_str(),
            ),
            ZkpError::VerificationFailed => String::from_str("Proof verification failed"),
            ZkpError::SerializationError(reason) => String::from_str(
                "Serialization error: ",
            ).concat(reason.as_str()),
            ZkpError::IoError(reason) => String::from_str("IO error: ").concat(reason.as_str()),
            ZkpError::InvalidPublicInput => String::from_str("Invalid public input"),
        }
    }
}

} // verus!
