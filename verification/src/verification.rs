//! The verifier, and the fixed byte layouts that an on-chain verifier
//! parses.

use crate::encoding::{
    append_bytes,
    le_bytes,
    le_value,
    lemma_le_bytes_len,
    low_le_bytes,
    read_array,
    u64_from_le_bytes,
};
use crate::error::ZkpError;
use crate::field::FieldElement;
use crate::mint_proof::{decoded_proof, proof_encoding, Groth16Proof, Proof};
use crate::public_inputs::MintPublicInputs;
use ark_ff::PrimeField;
use ark_serialize::{CanonicalDeserialize, CanonicalSerialize};
use ark_snark::SNARK;
use vstd::prelude::*;
use vstd::string::StringExecFns;

verus! {

/// A verifier for the mint relation: the verifying key of one trusted
/// setup, with the form of it that is prepared for the pairing check. The
/// prepared form is derived once, when the verifier is made, and never
/// changes.
#[verifier::external_body]
pub struct MintVerifier {
    pub(crate) verifying_key: ark_groth16::VerifyingKey<ark_bn254::Bn254>,
    pub(crate) prepared_vk: ark_groth16::PreparedVerifyingKey<ark_bn254::Bn254>,
}

/// The verifier whose key `bytes` encode, if they encode one.
pub uninterp spec fn decoded_verifying_key(bytes: Seq<u8>) -> Option<MintVerifier>;

/// The compressed encoding of the verifying key.
pub uninterp spec fn verifying_key_encoding(verifier: MintVerifier) -> Seq<u8>;

/// The number of input commitments in the key: one for the constant, one
/// for each public input.
pub uninterp spec fn input_commitments(verifier: MintVerifier) -> nat;

/// What the pairing check says of a proof for the given scalars: accepted,
/// rejected, or `None` where the check cannot be made.
pub uninterp spec fn pairing_check(verifier: MintVerifier, inputs: Seq<nat>, proof: Groth16Proof)
    -> Option<bool>;

/// The four ways in which a verification can end.
pub enum Outcome {
    /// The proof is well formed and satisfies the relation.
    Accepted,
    /// The proof is well formed and does not satisfy the relation.
    Rejected,
    /// The bytes are no proof.
    Malformed,
    /// The pairing check could not be made with this key and these inputs.
    Unchecked,
}

/// The numbers that a vector of scalars holds.
pub open spec fn scalar_values(elements: Seq<FieldElement>) -> Seq<nat> {
    elements.map_values(|e: FieldElement| e@)
}

impl MintVerifier {
    /// How the verification of `proof` for `inputs` ends.
    pub open spec fn outcome(&self, proof: Proof, inputs: MintPublicInputs) -> Outcome {
        if !proof.well_formed() {
            Outcome::Malformed
        } else {
            match pairing_check(
                *self,
                inputs.spec_field_elements(),
                decoded_proof(proof.bytes@)->0,
            ) {
                None => Outcome::Unchecked,
                Some(true) => Outcome::Accepted,
                Some(false) => Outcome::Rejected,
            }
        }
    }

    /// Whether `result` reports `outcome` as the verifier does: a rejected
    /// proof is `Ok(false)`, never an error.
    pub open spec fn reports(result: Result<bool, ZkpError>, outcome: Outcome) -> bool {
        match outcome {
            Outcome::Accepted => result matches Ok(true),
            Outcome::Rejected => result matches Ok(false),
            Outcome::Malformed => result matches Err(ZkpError::SerializationError(_)),
            Outcome::Unchecked => result matches Err(ZkpError::ProvingError(_)),
        }
    }

    /// Decodes a verifying key from its compressed encoding and prepares it.
    pub fn from_bytes(bytes: &[u8]) -> (result: Result<MintVerifier, ZkpError>)
        ensures
            match result {
                Ok(verifier) => decoded_verifying_key(bytes@) == Some(verifier),
                Err(e) => e is SerializationError && decoded_verifying_key(bytes@) is None,
            },
    {
        match decode_verifying_key(bytes) {
            Ok(verifier) => Ok(verifier),
            Err(e) => Err(ZkpError::SerializationError(e.to_string())),
        }
    }

    /// Verifies a proof against its public inputs.
    ///
    /// Bytes that are no proof give `SerializationError`: any length but
    /// 128, and 128 bytes that do not decode. A proof that is well formed
    /// gives `Ok(true)` or `Ok(false)`, as the pairing check decides;
    /// `ProvingError` is left for a check that cannot be made.
    pub fn verify(&self, proof: &Proof, public_inputs: &MintPublicInputs) -> (result: Result<
        bool,
        ZkpError,
    >)
        ensures
            Self::reports(result, self.outcome(*proof, *public_inputs)),
            proof.bytes@.len() != 128 ==> result matches Err(ZkpError::SerializationError(_)),
    {
        let decoded = proof.to_arkworks()?;
        let field_elements = public_inputs.to_field_elements();
        match check_proof(self, &field_elements, &decoded) {
            Ok(valid) => Ok(valid),
            Err(e) => Err(ZkpError::ProvingError(e.to_string())),
        }
    }

    /// Verifies proofs one after the other and stops at the first that is
    /// not accepted: its result is the result of the batch. A batch in
    /// which every proof is accepted gives `Ok(true)`.
    pub fn batch_verify(&self, proofs: &[(Proof, MintPublicInputs)]) -> (result: Result<
        bool,
        ZkpError,
    >)
        ensures
            (forall|i: int|
                0 <= i < proofs@.len() ==> self.outcome(#[trigger] proofs@[i].0, proofs@[i].1)
                    is Accepted) ==> result matches Ok(true),
            forall|k: int|
                0 <= k < proofs@.len() && self.outcome(proofs@[k].0, proofs@[k].1) !is Accepted
                    && (forall|i: int|
                    0 <= i < k ==> self.outcome(#[trigger] proofs@[i].0, proofs@[i].1)
                        is Accepted) ==> Self::reports(
                    result,
                    self.outcome(#[trigger] proofs@[k].0, proofs@[k].1),
                ),
    {
        let mut k: usize = 0;
        while k < proofs.len()
            invariant
                k <= proofs@.len(),
                forall|i: int|
                    0 <= i < k ==> self.outcome(#[trigger] proofs@[i].0, proofs@[i].1)
                        is Accepted,
            decreases proofs@.len() - k,
        {
            let (proof, inputs) = &proofs[k];
            let accepted = self.verify(proof, inputs)?;
            if !accepted {
                return Ok(false);
            }
            k = k + 1;
        }
        Ok(true)
    }

    /// The verifying key in its compressed encoding, as key files hold it.
    /// This always succeeds.
    pub fn to_bytes(&self) -> (result: Result<Vec<u8>, ZkpError>)
        ensures
            result matches Ok(bytes) && bytes@ == verifying_key_encoding(*self),
            well_framed(verifying_key_encoding(*self)),
            le_value(verifying_key_encoding(*self).subrange(224, 232)) == input_commitments(
                *self,
            ),
    {
        match encode_verifying_key(self) {
            Ok(bytes) => Ok(bytes),
            Err(e) => Err(ZkpError::SerializationError(e.to_string())),
        }
    }

    /// The verifying key in the layout that an on-chain verifier parses:
    /// alpha, beta, gamma, delta, the number of input commitments in four
    /// little-endian bytes, then the commitments. These are the bytes of
    /// the compressed encoding, with the count cut from eight bytes to
    /// four. This always succeeds.
    pub fn export_for_move(&self) -> (result: Result<Vec<u8>, ZkpError>)
        ensures
            result matches Ok(bytes) && bytes@ == on_chain_layout(
                verifying_key_encoding(*self),
                input_commitments(*self),
            ),
            result matches Ok(bytes) && bytes@.len() == 228 + 32 * input_commitments(*self),
    {
        match OnChainVerifyingKey::from_arkworks(self) {
            Ok(key) => {
                proof {
                    lemma_on_chain_layout(key, verifying_key_encoding(*self));
                }
                Ok(key.to_bytes())
            },
            Err(e) => Err(e),
        }
    }

    /// The number of public inputs that the key expects, for a key that
    /// has the commitment for the constant.
    pub fn num_public_inputs(&self) -> (n: usize)
        requires
            input_commitments(*self) >= 1,
        ensures
            n == input_commitments(*self) - 1,
    {
        commitment_count(self) - 1
    }

    /// The number of public inputs that the key expects, or `None` for a
    /// key without any input commitment.
    pub fn checked_num_public_inputs(&self) -> (n: Option<usize>)
        ensures
            match n {
                Some(n) => input_commitments(*self) == n + 1,
                None => input_commitments(*self) == 0,
            },
    {
        if commitment_count(self) == 0 {
            None
        } else {
            Some(self.num_public_inputs())
        }
    }
}

/// The verifying key as an on-chain verifier stores it: every group
/// element in its compressed encoding.
#[derive(Clone, Debug)]
pub struct OnChainVerifyingKey {
    /// Alpha, in G1.
    pub alpha_g1: [u8; 32],
    /// Beta, in G2.
    pub beta_g2: [u8; 64],
    /// Gamma, in G2.
    pub gamma_g2: [u8; 64],
    /// Delta, in G2.
    pub delta_g2: [u8; 64],
    /// The input commitments, in G1.
    pub gamma_abc_g1: Vec<[u8; 32]>,
}

/// The points of `points`, one after the other.
pub open spec fn concat_points(points: Seq<[u8; 32]>) -> Seq<u8>
    decreases points.len(),
{
    if points.len() == 0 {
        Seq::empty()
    } else {
        concat_points(points.drop_last()) + points.last()@
    }
}

/// `concat_points` holds 32 bytes for each point, and point `i` from byte
/// `32 * i` on.
pub proof fn lemma_concat_points(points: Seq<[u8; 32]>)
    ensures
        concat_points(points).len() == 32 * points.len(),
        forall|i: int|
            0 <= i < points.len() ==> concat_points(points).subrange(32 * i, 32 * i + 32)
                == (#[trigger] points[i])@,
    decreases points.len(),
{
    if points.len() > 0 {
        let front = points.drop_last();
        lemma_concat_points(front);
        assert forall|i: int| 0 <= i < points.len() implies concat_points(points).subrange(
            32 * i,
            32 * i + 32,
        ) == (#[trigger] points[i])@ by {
            if i < front.len() {
                assert(concat_points(points).subrange(32 * i, 32 * i + 32) =~= concat_points(
                    front,
                ).subrange(32 * i, 32 * i + 32));
                assert(front[i] == points[i]);
            } else {
                assert(concat_points(points).subrange(32 * i, 32 * i + 32) =~= points.last()@);
            }
        }
    }
}

/// Points that are read off `bytes` one after the other, from byte `start`
/// to the end, are those bytes when they are put together again.
pub proof fn lemma_concat_points_of_bytes(points: Seq<[u8; 32]>, bytes: Seq<u8>, start: int)
    requires
        0 <= start,
        bytes.len() == start + 32 * points.len(),
        forall|i: int|
            0 <= i < points.len() ==> (#[trigger] points[i])@ == bytes.subrange(
                start + 32 * i,
                start + 32 * i + 32,
            ),
    ensures
        concat_points(points) == bytes.subrange(start, bytes.len() as int),
    decreases points.len(),
{
    if points.len() == 0 {
        assert(concat_points(points) =~= bytes.subrange(start, bytes.len() as int));
    } else {
        let front = points.drop_last();
        let shorter = bytes.subrange(0, bytes.len() - 32);
        assert forall|i: int| 0 <= i < front.len() implies (#[trigger] front[i])@
            == shorter.subrange(start + 32 * i, start + 32 * i + 32) by {
            assert(front[i] == points[i]);
            assert(shorter.subrange(start + 32 * i, start + 32 * i + 32) =~= bytes.subrange(
                start + 32 * i,
                start + 32 * i + 32,
            ));
        }
        lemma_concat_points_of_bytes(front, shorter, start);
        let last = points.len() - 1;
        assert(points.last() == points[last]);
        assert(concat_points(points) =~= bytes.subrange(start, bytes.len() as int));
    }
}

/// The on-chain layout of a key with `count` input commitments whose
/// compressed encoding is `encoding`: the fixed elements, the count in four
/// little-endian bytes, the commitments.
pub open spec fn on_chain_layout(encoding: Seq<u8>, count: nat) -> Seq<u8> {
    encoding.subrange(0, 224) + le_bytes(count, 4) + encoding.subrange(232, encoding.len() as int)
}

/// The on-chain layout is the compressed encoding with its count cut from
/// eight bytes to four: what stands before the count and what follows it is
/// the same in both.
pub proof fn lemma_on_chain_layout(key: OnChainVerifyingKey, bytes: Seq<u8>)
    requires
        key.framed_by(bytes),
    ensures
        key.spec_to_bytes() == on_chain_layout(bytes, key.gamma_abc_g1@.len()),
{
    let points = key.gamma_abc_g1@;
    assert forall|i: int| 0 <= i < points.len() implies (#[trigger] points[i])@ == bytes.subrange(
        232 + 32 * i,
        232 + 32 * i + 32,
    ) by {
        assert(264 + 32 * i == 232 + 32 * i + 32);
    }
    lemma_concat_points_of_bytes(points, bytes, 232);
    assert(key.alpha_g1@ + key.beta_g2@ + key.gamma_g2@ + key.delta_g2@ =~= bytes.subrange(
        0,
        224,
    ));
}

impl OnChainVerifyingKey {
    /// The layout that an on-chain verifier parses: alpha, beta, gamma,
    /// delta, the number of input commitments in four little-endian bytes,
    /// then the commitments.
    pub open spec fn spec_to_bytes(&self) -> Seq<u8> {
        self.alpha_g1@ + self.beta_g2@ + self.gamma_g2@ + self.delta_g2@ + le_bytes(
            self.gamma_abc_g1@.len(),
            4,
        ) + concat_points(self.gamma_abc_g1@)
    }

    /// Whether `self` is the key that the compressed encoding `bytes`
    /// holds: the four fixed elements, an eight-byte count, and as many
    /// commitments as the count says, with nothing left over.
    pub open spec fn framed_by(&self, bytes: Seq<u8>) -> bool {
        &&& well_framed(bytes)
        &&& self.alpha_g1@ == bytes.subrange(0, 32)
        &&& self.beta_g2@ == bytes.subrange(32, 96)
        &&& self.gamma_g2@ == bytes.subrange(96, 160)
        &&& self.delta_g2@ == bytes.subrange(160, 224)
        &&& self.gamma_abc_g1@.len() == le_value(bytes.subrange(224, 232))
        &&& forall|i: int|
            0 <= i < self.gamma_abc_g1@.len() ==> (#[trigger] self.gamma_abc_g1@[i])@
                == bytes.subrange(232 + 32 * i, 264 + 32 * i)
    }

    /// Projects the key of `verifier` into the on-chain form: its
    /// compressed encoding, taken apart element by element. This always
    /// succeeds, and keeps every input commitment, in its order.
    pub fn from_arkworks(verifier: &MintVerifier) -> (result: Result<OnChainVerifyingKey, ZkpError>)
        ensures
            result matches Ok(key) && key.framed_by(verifying_key_encoding(*verifier))
                && key.gamma_abc_g1@.len() == input_commitments(*verifier),
    {
        match verifier.to_bytes() {
            Ok(encoded) => OnChainVerifyingKey::from_compressed(encoded.as_slice()),
            Err(e) => Err(e),
        }
    }

    /// Takes a compressed verifying key apart. Bytes that are not framed as
    /// such a key are refused.
    pub fn from_compressed(bytes: &[u8]) -> (result: Result<OnChainVerifyingKey, ZkpError>)
        ensures
            result is Ok <==> well_framed(bytes@),
            result matches Ok(key) ==> key.framed_by(bytes@),
            result matches Err(e) ==> e is SerializationError,
    {
        let len: usize = bytes.len();
        if len < 232 {
            return Err(
                ZkpError::SerializationError(
                    String::from_str("the verifying key is shorter than its fixed part"),
                ),
            );
        }
        let count_bytes: [u8; 8] = read_array(bytes, 224);
        let count: u64 = u64_from_le_bytes(&count_bytes);
        let rest: usize = len - 232;
        if rest % 32 != 0 || (rest / 32) as u64 != count {
            return Err(
                ZkpError::SerializationError(
                    String::from_str("the verifying key does not hold the commitments it counts"),
                ),
            );
        }
        let n: usize = rest / 32;
        let mut gamma_abc_g1: Vec<[u8; 32]> = Vec::new();
        let mut i: usize = 0;
        while i < n
            invariant
                i <= n,
                len == bytes@.len(),
                len == 232 + 32 * n,
                gamma_abc_g1@.len() == i,
                forall|k: int|
                    0 <= k < i ==> (#[trigger] gamma_abc_g1@[k])@ == bytes@.subrange(
                        232 + 32 * k,
                        264 + 32 * k,
                    ),
            decreases n - i,
        {
            let point: [u8; 32] = read_array(bytes, 232 + 32 * i);
            gamma_abc_g1.push(point);
            i = i + 1;
        }
        Ok(
            OnChainVerifyingKey {
                alpha_g1: read_array(bytes, 0),
                beta_g2: read_array(bytes, 32),
                gamma_g2: read_array(bytes, 96),
                delta_g2: read_array(bytes, 160),
                gamma_abc_g1,
            },
        )
    }

    /// Encodes the key for an on-chain verifier.
    pub fn to_bytes(&self) -> (bytes: Vec<u8>)
        ensures
            bytes@ == self.spec_to_bytes(),
            bytes@.len() == 228 + 32 * self.gamma_abc_g1@.len(),
    {
        let mut bytes: Vec<u8> = Vec::new();
        append_bytes(&mut bytes, &self.alpha_g1);
        append_bytes(&mut bytes, &self.beta_g2);
        append_bytes(&mut bytes, &self.gamma_g2);
        append_bytes(&mut bytes, &self.delta_g2);
        let count: [u8; 4] = low_le_bytes::<4>(self.gamma_abc_g1.len() as u64);
        append_bytes(&mut bytes, &count);
        let ghost head = bytes@;
        let mut i: usize = 0;
        while i < self.gamma_abc_g1.len()
            invariant
                i <= self.gamma_abc_g1@.len(),
                bytes@ == head + concat_points(self.gamma_abc_g1@.subrange(0, i as int)),
            decreases self.gamma_abc_g1@.len() - i,
        {
            append_bytes(&mut bytes, &self.gamma_abc_g1[i]);
            proof {
                let front = self.gamma_abc_g1@.subrange(0, i as int);
                let more = self.gamma_abc_g1@.subrange(0, i + 1);
                assert(more.drop_last() =~= front);
                assert(more.last() == self.gamma_abc_g1@[i as int]);
            }
            i = i + 1;
        }
        proof {
            assert(self.gamma_abc_g1@.subrange(0, i as int) =~= self.gamma_abc_g1@);
            lemma_le_bytes_len(self.gamma_abc_g1@.len(), 4);
            lemma_concat_points(self.gamma_abc_g1@);
        }
        bytes
    }
}

/// Whether `bytes` are framed as a compressed verifying key: 224 bytes of
/// fixed elements, a count in eight little-endian bytes, and 32 bytes for
/// each commitment counted.
pub open spec fn well_framed(bytes: Seq<u8>) -> bool {
    &&& bytes.len() >= 232
    &&& bytes.len() - 232 == 32 * le_value(bytes.subrange(224, 232))
}

/// A proof as an on-chain verifier takes it: its three points, compressed.
#[derive(Clone, Debug)]
pub struct OnChainProof {
    /// A, in G1.
    pub a: [u8; 32],
    /// B, in G2.
    pub b: [u8; 64],
    /// C, in G1.
    pub c: [u8; 32],
}

impl OnChainProof {
    /// The three points one after the other.
    pub open spec fn spec_to_bytes(&self) -> Seq<u8> {
        self.a@ + self.b@ + self.c@
    }

    /// Takes the compressed encoding of a proof apart, point by point. This
    /// always succeeds.
    pub fn from_arkworks(proof: &Groth16Proof) -> (result: Result<OnChainProof, ZkpError>)
        ensures
            result matches Ok(split) && split.spec_to_bytes() == proof_encoding(*proof),
    {
        let encoded = match Proof::from_arkworks(proof) {
            Ok(encoded) => encoded,
            Err(e) => {
                return Err(e);
            },
        };
        let bytes = encoded.to_bytes();
        let split = OnChainProof {
            a: read_array(bytes, 0),
            b: read_array(bytes, 32),
            c: read_array(bytes, 96),
        };
        proof {
            assert(split.spec_to_bytes() =~= bytes@);
        }
        Ok(split)
    }

    /// Encodes the proof for an on-chain verifier: 128 bytes.
    pub fn to_bytes(&self) -> (bytes: Vec<u8>)
        ensures
            bytes@ == self.spec_to_bytes(),
            bytes@.len() == 128,
    {
        let mut bytes: Vec<u8> = Vec::with_capacity(128);
        append_bytes(&mut bytes, &self.a);
        append_bytes(&mut bytes, &self.b);
        append_bytes(&mut bytes, &self.c);
        bytes
    }

    /// The length of the encoded proof.
    pub fn size(&self) -> (n: usize)
        ensures
            n == 128,
            n == self.spec_to_bytes().len(),
    {
        128
    }
}

/// `ark_serialize::CanonicalDeserialize::deserialize_compressed` for
/// `ark_groth16::VerifyingKey<Bn254>`, reading from a slice, and
/// `ark_groth16::prepare_verifying_key` on what was read. The key that
/// comes back depends on the bytes alone; the contract gives it its name.
#[verifier::external_body]
fn decode_verifying_key(bytes: &[u8]) -> (result: Result<
    MintVerifier,
    ark_serialize::SerializationError,
>)
    ensures
        match result {
            Ok(verifier) => decoded_verifying_key(bytes@) == Some(verifier),
            Err(_) => decoded_verifying_key(bytes@) is None,
        },
{
    let verifying_key = ark_groth16::VerifyingKey::deserialize_compressed(bytes)?;
    let prepared_vk = ark_groth16::prepare_verifying_key(&verifying_key);
    Ok(MintVerifier { verifying_key, prepared_vk })
}

/// `ark_serialize::CanonicalSerialize::serialize_compressed` of the
/// verifying key into a fresh vector. The contract names what is written
/// and states how it is framed: the fields of the key follow each other in
/// the order of their declaration, alpha in 32 bytes, beta, gamma and delta
/// in 64 bytes each, then the input commitments as a vector, which is its
/// length in eight little-endian bytes and 32 bytes for each point. Writing
/// into a vector does not fail, and a point is encoded with two flag bits,
/// which its last byte has room for: the call returns `Ok`.
#[verifier::external_body]
fn encode_verifying_key(verifier: &MintVerifier) -> (result: Result<
    Vec<u8>,
    ark_serialize::SerializationError,
>)
    ensures
        result is Ok,
        result matches Ok(bytes) ==> bytes@ == verifying_key_encoding(*verifier),
        result matches Ok(bytes) ==> well_framed(bytes@),
        result matches Ok(bytes) ==> le_value(bytes@.subrange(224, 232)) == input_commitments(
            *verifier,
        ),
{
    let mut bytes = Vec::new();
    verifier.verifying_key.serialize_compressed(&mut bytes).map(|_| bytes)
}

/// The length of the field `gamma_abc_g1` of the verifying key.
#[verifier::external_body]
fn commitment_count(verifier: &MintVerifier) -> (n: usize)
    ensures
        n == input_commitments(*verifier),
{
    verifier.verifying_key.gamma_abc_g1.len()
}

/// `ark_groth16::Groth16::verify_with_processed_vk` (through
/// `ark_snark::SNARK`) on the prepared key. Its answer depends on the key,
/// the scalars and the proof alone; the contract gives it its name. The
/// crate refuses, before any pairing, a number of scalars that is not one
/// less than the number of input commitments.
#[verifier::external_body]
fn check_proof(verifier: &MintVerifier, inputs: &Vec<FieldElement>, proof: &Groth16Proof) -> (result:
    Result<bool, ark_relations::r1cs::SynthesisError>)
    ensures
        match result {
            Ok(valid) => pairing_check(*verifier, scalar_values(inputs@), *proof) == Some(valid),
            Err(_) => pairing_check(*verifier, scalar_values(inputs@), *proof) is None,
        },
        inputs@.len() + 1 != input_commitments(*verifier) ==> result is Err,
{
    let scalars: Vec<ark_bn254::Fr> = inputs.iter().map(
        |e| ark_bn254::Fr::from_le_bytes_mod_order(&e.to_le_bytes()),
    ).collect();
    ark_groth16::Groth16::<ark_bn254::Bn254>::verify_with_processed_vk(
        &verifier.prepared_vk,
        &scalars,
        &proof.inner,
    )
}

} // verus!
