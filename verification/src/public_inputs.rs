//! The public inputs of a mint proof and their wire format.
//!
//! On the wire the six fields follow each other without padding, in the
//! order in which they are declared: four 32-byte strings, then the nonce
//! and the epoch as little-endian 64-bit numbers. That makes 144 bytes.

use crate::encoding::{
    append_bytes,
    le_bytes,
    le_value,
    lemma_le_bytes_len,
    lemma_le_bytes_of_le_value,
    lemma_le_value_of_le_bytes_u64,
    read_array,
    u64_from_le_bytes,
    u64_to_le_bytes,
};
use crate::error::ZkpError;
use crate::field::{fr_modulus, FieldElement};
use vstd::prelude::*;

verus! {

/// The length of encoded public inputs.
pub const PUBLIC_INPUTS_LEN: usize = 144;

/// What the verifier sees of a mint.
#[derive(Clone, Debug)]
pub struct MintPublicInputs {
    /// The x coordinate of the commitment to the amount.
    pub commitment_x: [u8; 32],
    /// The y coordinate of the commitment to the amount.
    pub commitment_y: [u8; 32],
    /// SHA-256 of the minter's public key.
    pub authority_hash: [u8; 32],
    /// SHA-256 of the padded daily limit.
    pub limit_hash: [u8; 32],
    /// A number that grows with every mint of one minter.
    pub nonce: u64,
    /// The validity window that the proof belongs to.
    pub epoch: u64,
}

impl MintPublicInputs {
    /// The wire format of the inputs.
    pub open spec fn spec_to_bytes(&self) -> Seq<u8> {
        self.commitment_x@ + self.commitment_y@ + self.authority_hash@ + self.limit_hash@
            + le_bytes(self.nonce as nat, 8) + le_bytes(self.epoch as nat, 8)
    }

    /// Whether `self` is what `bytes` encode.
    pub open spec fn encoded_by(&self, bytes: Seq<u8>) -> bool {
        &&& bytes.len() == 144
        &&& self.commitment_x@ == bytes.subrange(0, 32)
        &&& self.commitment_y@ == bytes.subrange(32, 64)
        &&& self.authority_hash@ == bytes.subrange(64, 96)
        &&& self.limit_hash@ == bytes.subrange(96, 128)
        &&& self.nonce == le_value(bytes.subrange(128, 136))
        &&& self.epoch == le_value(bytes.subrange(136, 144))
    }

    /// Whether `result` is what decoding `bytes` gives: the inputs that the
    /// bytes encode if there are 144 of them, and a refusal otherwise.
    pub open spec fn decoded_from(
        bytes: Seq<u8>,
        result: Result<MintPublicInputs, ZkpError>,
    ) -> bool {
        if bytes.len() == 144 {
            result matches Ok(inputs) && inputs.encoded_by(bytes)
        } else {
            result matches Err(ZkpError::InvalidPublicInput)
        }
    }

    /// The six scalars that the proving system is given, in its order.
    pub open spec fn spec_field_elements(&self) -> Seq<nat> {
        seq![
            le_value(self.commitment_x@) % fr_modulus(),
            le_value(self.commitment_y@) % fr_modulus(),
            le_value(self.authority_hash@) % fr_modulus(),
            le_value(self.limit_hash@) % fr_modulus(),
            self.nonce as nat,
            self.epoch as nat,
        ]
    }

    /// Encodes the inputs for the wire.
    pub fn to_bytes(&self) -> (bytes: Vec<u8>)
        ensures
            bytes@ == self.spec_to_bytes(),
            bytes@.len() == 144,
    {
        let mut bytes: Vec<u8> = Vec::with_capacity(144);
        append_bytes(&mut bytes, &self.commitment_x);
        append_bytes(&mut bytes, &self.commitment_y);
        append_bytes(&mut bytes, &self.authority_hash);
        append_bytes(&mut bytes, &self.limit_hash);
        let nonce = u64_to_le_bytes(self.nonce);
        append_bytes(&mut bytes, &nonce);
        let epoch = u64_to_le_bytes(self.epoch);
        append_bytes(&mut bytes, &epoch);
        proof {
            lemma_le_bytes_len(self.nonce as nat, 8);
            lemma_le_bytes_len(self.epoch as nat, 8);
        }
        bytes
    }

    /// Decodes inputs from the wire. Anything but 144 bytes is refused.
    pub fn from_bytes(bytes: &[u8]) -> (result: Result<MintPublicInputs, ZkpError>)
        ensures
            Self::decoded_from(bytes@, result),
            result matches Ok(inputs) ==> inputs.spec_to_bytes() == bytes@,
    {
        if bytes.len() != PUBLIC_INPUTS_LEN {
            return Err(ZkpError::InvalidPublicInput);
        }
        let nonce: [u8; 8] = read_array(bytes, 128);
        let epoch: [u8; 8] = read_array(bytes, 136);
        let inputs = MintPublicInputs {
            commitment_x: read_array(bytes, 0),
            commitment_y: read_array(bytes, 32),
            authority_hash: read_array(bytes, 64),
            limit_hash: read_array(bytes, 96),
            nonce: u64_from_le_bytes(&nonce),
            epoch: u64_from_le_bytes(&epoch),
        };
        proof {
            assert(inputs.spec_to_bytes() =~= bytes@);
        }
        Ok(inputs)
    }

    /// Maps the inputs to scalars: each 32-byte field is read little-endian
    /// and reduced modulo the field order, each number is embedded as it is.
    pub fn to_field_elements(&self) -> (elements: Vec<FieldElement>)
        ensures
            elements@.len() == 6,
            elements@.map_values(|e: FieldElement| e@) == self.spec_field_elements(),
            forall|i: int| 0 <= i < 6 ==> elements@[i]@ == self.spec_field_elements()[i],
    {
        let mut elements: Vec<FieldElement> = Vec::with_capacity(6);
        elements.push(FieldElement::from_le_bytes_mod_order(&self.commitment_x));
        elements.push(FieldElement::from_le_bytes_mod_order(&self.commitment_y));
        elements.push(FieldElement::from_le_bytes_mod_order(&self.authority_hash));
        elements.push(FieldElement::from_le_bytes_mod_order(&self.limit_hash));
        elements.push(FieldElement::from_u64(self.nonce));
        elements.push(FieldElement::from_u64(self.epoch));
        proof {
            assert(elements@.map_values(|e: FieldElement| e@) =~= self.spec_field_elements());
        }
        elements
    }
}

/// The wire format is always 144 bytes long.
pub proof fn lemma_encoding_length(inputs: MintPublicInputs)
    ensures
        inputs.spec_to_bytes().len() == 144,
{
    lemma_le_bytes_len(inputs.nonce as nat, 8);
    lemma_le_bytes_len(inputs.epoch as nat, 8);
}

/// Decoding undoes encoding: decoding the wire format of `inputs` succeeds
/// and gives `inputs` back.
pub proof fn lemma_decode_encode(
    inputs: MintPublicInputs,
    result: Result<MintPublicInputs, ZkpError>,
)
    requires
        MintPublicInputs::decoded_from(inputs.spec_to_bytes(), result),
    ensures
        result matches Ok(decoded) && decoded == inputs,
{
    let bytes = inputs.spec_to_bytes();
    lemma_encoding_length(inputs);
    lemma_le_value_of_le_bytes_u64(inputs.nonce);
    lemma_le_value_of_le_bytes_u64(inputs.epoch);
    let decoded = result->Ok_0;
    assert(bytes.subrange(0, 32) =~= inputs.commitment_x@);
    assert(bytes.subrange(32, 64) =~= inputs.commitment_y@);
    assert(bytes.subrange(64, 96) =~= inputs.authority_hash@);
    assert(bytes.subrange(96, 128) =~= inputs.limit_hash@);
    assert(bytes.subrange(128, 136) =~= le_bytes(inputs.nonce as nat, 8));
    assert(bytes.subrange(136, 144) =~= le_bytes(inputs.epoch as nat, 8));
    assert(decoded.commitment_x =~= inputs.commitment_x);
    assert(decoded.commitment_y =~= inputs.commitment_y);
    assert(decoded.authority_hash =~= inputs.authority_hash);
    assert(decoded.limit_hash =~= inputs.limit_hash);
}

/// Encoding undoes decoding: inputs that 144 bytes encode have those bytes
/// as their wire format.
pub proof fn lemma_encode_decode(inputs: MintPublicInputs, bytes: Seq<u8>)
    requires
        inputs.encoded_by(bytes),
    ensures
        inputs.spec_to_bytes() == bytes,
{
    lemma_le_bytes_of_le_value(bytes.subrange(128, 136));
    lemma_le_bytes_of_le_value(bytes.subrange(136, 144));
    assert(inputs.spec_to_bytes() =~= bytes);
}

/// The inputs are encoded by their own wire format, so that decoding it
/// always succeeds.
pub proof fn lemma_encoded_by_own_bytes(inputs: MintPublicInputs)
    ensures
        inputs.encoded_by(inputs.spec_to_bytes()),
{
    lemma_encoding_length(inputs);
    lemma_le_value_of_le_bytes_u64(inputs.nonce);
    lemma_le_value_of_le_bytes_u64(inputs.epoch);
    let bytes = inputs.spec_to_bytes();
    assert(bytes.subrange(0, 32) =~= inputs.commitment_x@);
    assert(bytes.subrange(32, 64) =~= inputs.commitment_y@);
    assert(bytes.subrange(64, 96) =~= inputs.authority_hash@);
    assert(bytes.subrange(96, 128) =~= inputs.limit_hash@);
    assert(bytes.subrange(128, 136) =~= le_bytes(inputs.nonce as nat, 8));
    assert(bytes.subrange(136, 144) =~= le_bytes(inputs.epoch as nat, 8));
}

} // verus!
