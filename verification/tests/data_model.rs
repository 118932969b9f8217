use sovchain_zkp::circuit::{
    relation_constraints, relation_shape, CONSTRAINT_COUNT, PUBLIC_INPUT_COUNT, WITNESS_COUNT,
};
use sovchain_zkp::constraints;
use sovchain_zkp::encoding::{low_le_bytes, read_array, u64_from_le_bytes, u64_to_le_bytes};
use sovchain_zkp::r1cs::{Constraint, ConstraintSystem, Term, Variable};
use sovchain_zkp::witness::pad_limit;
use sovchain_zkp::{FieldElement, MintCircuit, MintPublicInputs, MintWitness, Proof, ZkpError};

const FR_MODULUS_LE: [u8; 32] = [
    1, 0, 0, 240, 147, 245, 225, 67, 145, 112, 185, 121, 72, 232, 51, 40, 93, 88, 129, 129, 182,
    69, 80, 184, 41, 160, 49, 225, 114, 78, 100, 48,
];

fn sample_witness() -> MintWitness {
    MintWitness {
        amount: 1_000_000,
        blinding: [0u8; 32],
        pubkey: [1u8; 32],
        daily_limit: 10_000_000,
    }
}

fn sample_inputs() -> MintPublicInputs {
    MintPublicInputs {
        commitment_x: [1u8; 32],
        commitment_y: [2u8; 32],
        authority_hash: [3u8; 32],
        limit_hash: [4u8; 32],
        nonce: 42,
        epoch: 100,
    }
}

#[test]
fn test_constraint_count() {
    assert_eq!(constraints::TOTAL, 50_000);
}

#[test]
fn constraint_budget_parts_add_up() {
    let parts = constraints::PEDERSEN_COMMITMENT
        + constraints::RANGE_PROOF_64
        + constraints::POLICY_CHECK
        + constraints::SHA256_AUTHORITY
        + constraints::SHA256_LIMIT
        + constraints::MISC;
    assert_eq!(parts, constraints::TOTAL);
    assert_eq!(constraints::TOTAL, constraints::TARGET);
    assert_eq!(constraints::PEDERSEN_COMMITMENT, 12_400);
    assert_eq!(constraints::RANGE_PROOF_64, 18_200);
    assert_eq!(constraints::POLICY_CHECK, 2_100);
    assert_eq!(constraints::SHA256_AUTHORITY, 8_500);
    assert_eq!(constraints::SHA256_LIMIT, 8_500);
    assert_eq!(constraints::MISC, 300);
}

#[test]
fn relation_stays_within_its_budget() {
    assert!(CONSTRAINT_COUNT <= constraints::RANGE_PROOF_64 + constraints::POLICY_CHECK + constraints::MISC);
    assert!(CONSTRAINT_COUNT <= constraints::TOTAL);
}

#[test]
fn test_witness_validation() {
    let witness = MintWitness {
        amount: 1_000_000,
        blinding: [0u8; 32],
        pubkey: [1u8; 32],
        daily_limit: 10_000_000,
    };
    assert!(witness.validate().is_ok());

    let invalid = MintWitness {
        amount: 0,
        ..witness.clone()
    };
    assert!(invalid.validate().is_err());

    let over_limit = MintWitness {
        amount: 20_000_000,
        ..witness
    };
    assert!(over_limit.validate().is_err());
}

#[test]
fn validation_names_the_broken_rule() {
    let zero = MintWitness { amount: 0, ..sample_witness() };
    match zero.validate() {
        Err(ZkpError::InvalidWitness(reason)) => assert_eq!(reason, "amount must be positive"),
        other => panic!("unexpected result: {:?}", other),
    }
    let over = MintWitness { amount: 10_000_001, ..sample_witness() };
    match over.validate() {
        Err(ZkpError::InvalidWitness(reason)) => assert_eq!(reason, "amount exceeds daily limit"),
        other => panic!("unexpected result: {:?}", other),
    }
    // Zero is reported as such even where the limit is zero too.
    let both = MintWitness { amount: 0, daily_limit: 0, ..sample_witness() };
    match both.validate() {
        Err(ZkpError::InvalidWitness(reason)) => assert_eq!(reason, "amount must be positive"),
        other => panic!("unexpected result: {:?}", other),
    }
}

#[test]
fn validation_accepts_the_edges_of_the_policy() {
    let at_limit = MintWitness { amount: 10_000_000, ..sample_witness() };
    assert!(at_limit.validate().is_ok());
    let smallest = MintWitness { amount: 1, daily_limit: 1, ..sample_witness() };
    assert!(smallest.validate().is_ok());
    let largest = MintWitness { amount: u64::MAX, daily_limit: u64::MAX, ..sample_witness() };
    assert!(largest.validate().is_ok());
    let just_over = MintWitness { amount: u64::MAX, daily_limit: u64::MAX - 1, ..sample_witness() };
    assert!(just_over.validate().is_err());
}

#[test]
fn new_witness_keeps_what_it_is_given() {
    let witness = MintWitness::new(5, [9u8; 32], 7);
    assert_eq!(witness.amount, 5);
    assert_eq!(witness.pubkey, [9u8; 32]);
    assert_eq!(witness.daily_limit, 7);
    let other = MintWitness::new(5, [9u8; 32], 7);
    assert_ne!(witness.blinding, other.blinding);
}

#[test]
fn test_authority_hash() {
    let witness = MintWitness {
        amount: 1_000_000,
        blinding: [0u8; 32],
        pubkey: [0xab; 32],
        daily_limit: 10_000_000,
    };

    let hash = witness.compute_authority_hash();
    assert_eq!(hash.len(), 32);

    // Same pubkey should give same hash
    let hash2 = witness.compute_authority_hash();
    assert_eq!(hash, hash2);
}

#[test]
fn authority_hash_is_sha256_of_the_key() {
    let witness = MintWitness { pubkey: [0xab; 32], ..sample_witness() };
    assert_eq!(
        witness.compute_authority_hash(),
        [
            154, 45, 178, 226, 63, 21, 4, 205, 5, 102, 6, 85, 58, 192, 73, 197, 231, 24, 232, 249,
            206, 146, 51, 135, 109, 241, 167, 161, 130, 26, 248, 133
        ]
    );
    assert_eq!(
        sample_witness().compute_authority_hash(),
        [
            114, 205, 110, 132, 34, 196, 7, 251, 109, 9, 134, 144, 241, 19, 11, 125, 237, 126, 194,
            247, 245, 225, 211, 11, 217, 213, 33, 240, 21, 54, 55, 147
        ]
    );
}

#[test]
fn limit_hash_is_sha256_of_the_padded_limit() {
    assert_eq!(
        sample_witness().compute_limit_hash(),
        [
            0, 63, 107, 209, 199, 204, 135, 45, 89, 98, 199, 36, 72, 236, 37, 73, 243, 119, 152, 0,
            108, 9, 174, 150, 55, 11, 37, 133, 215, 244, 114, 67
        ]
    );
    let next = MintWitness { daily_limit: 10_000_001, ..sample_witness() };
    assert_eq!(
        next.compute_limit_hash(),
        [
            134, 123, 239, 108, 136, 197, 135, 235, 57, 8, 210, 152, 176, 142, 60, 64, 214, 155,
            109, 122, 133, 211, 62, 65, 47, 104, 106, 1, 107, 200, 110, 190
        ]
    );
}

#[test]
fn bindings_depend_on_key_and_limit_alone() {
    let a = sample_witness();
    let b = MintWitness { amount: 7, blinding: [5u8; 32], ..sample_witness() };
    assert_eq!(a.compute_authority_hash(), b.compute_authority_hash());
    assert_eq!(a.compute_limit_hash(), b.compute_limit_hash());

    let mut key = [1u8; 32];
    key[17] ^= 0x10;
    let other_key = MintWitness { pubkey: key, ..sample_witness() };
    assert_ne!(a.compute_authority_hash(), other_key.compute_authority_hash());
    assert_eq!(a.compute_limit_hash(), other_key.compute_limit_hash());

    let other_limit = MintWitness { daily_limit: 10_000_000 ^ 1, ..sample_witness() };
    assert_ne!(a.compute_limit_hash(), other_limit.compute_limit_hash());
    assert_eq!(a.compute_authority_hash(), other_limit.compute_authority_hash());
}

#[test]
fn limit_is_padded_big_endian() {
    let mut expected = [0u8; 32];
    expected[29] = 152;
    expected[30] = 150;
    expected[31] = 128;
    assert_eq!(pad_limit(10_000_000), expected);
    assert_eq!(pad_limit(0), [0u8; 32]);
    let mut all = [0u8; 32];
    for i in 24..32 {
        all[i] = 0xff;
    }
    assert_eq!(pad_limit(u64::MAX), all);
    let mut counted = [0u8; 32];
    counted[24..].copy_from_slice(&[1, 2, 3, 4, 5, 6, 7, 8]);
    assert_eq!(pad_limit(0x0102030405060708), counted);
}

#[test]
fn test_public_inputs_serialization() {
    let inputs = MintPublicInputs {
        commitment_x: [1u8; 32],
        commitment_y: [2u8; 32],
        authority_hash: [3u8; 32],
        limit_hash: [4u8; 32],
        nonce: 42,
        epoch: 100,
    };

    let bytes = inputs.to_bytes();
    assert_eq!(bytes.len(), 144);

    let recovered = MintPublicInputs::from_bytes(&bytes).unwrap();
    assert_eq!(recovered.nonce, 42);
    assert_eq!(recovered.epoch, 100);
}

#[test]
fn public_inputs_have_the_fixed_layout() {
    let bytes = sample_inputs().to_bytes();
    assert_eq!(&bytes[0..32], &[1u8; 32]);
    assert_eq!(&bytes[32..64], &[2u8; 32]);
    assert_eq!(&bytes[64..96], &[3u8; 32]);
    assert_eq!(&bytes[96..128], &[4u8; 32]);
    assert_eq!(&bytes[128..136], &[42, 0, 0, 0, 0, 0, 0, 0]);
    assert_eq!(&bytes[136..144], &[100, 0, 0, 0, 0, 0, 0, 0]);

    let wide = MintPublicInputs {
        nonce: 0x0102030405060708,
        epoch: u64::MAX,
        ..sample_inputs()
    };
    let bytes = wide.to_bytes();
    assert_eq!(&bytes[128..136], &[8, 7, 6, 5, 4, 3, 2, 1]);
    assert_eq!(&bytes[136..144], &[0xff; 8]);
}

#[test]
fn public_inputs_round_trip() {
    let inputs = MintPublicInputs {
        commitment_x: [0x11; 32],
        commitment_y: [0x22; 32],
        authority_hash: [0x33; 32],
        limit_hash: [0x44; 32],
        nonce: 0xfedcba9876543210,
        epoch: 1,
    };
    let bytes = inputs.to_bytes();
    let back = MintPublicInputs::from_bytes(&bytes).unwrap();
    assert_eq!(back.commitment_x, inputs.commitment_x);
    assert_eq!(back.commitment_y, inputs.commitment_y);
    assert_eq!(back.authority_hash, inputs.authority_hash);
    assert_eq!(back.limit_hash, inputs.limit_hash);
    assert_eq!(back.nonce, inputs.nonce);
    assert_eq!(back.epoch, inputs.epoch);
    assert_eq!(back.to_bytes(), bytes);
}

#[test]
fn public_inputs_of_another_length_are_refused() {
    for len in [0usize, 1, 32, 143, 145, 288] {
        let bytes = vec![7u8; len];
        assert!(matches!(
            MintPublicInputs::from_bytes(&bytes),
            Err(ZkpError::InvalidPublicInput)
        ));
    }
    assert!(MintPublicInputs::from_bytes(&[7u8; 144]).is_ok());
}

#[test]
fn test_public_inputs_field_elements() {
    let inputs = MintPublicInputs {
        commitment_x: [1u8; 32],
        commitment_y: [2u8; 32],
        authority_hash: [3u8; 32],
        limit_hash: [4u8; 32],
        nonce: 42,
        epoch: 100,
    };

    let elements = inputs.to_field_elements();
    assert_eq!(elements.len(), 6);
}

#[test]
fn field_elements_follow_the_wire_order() {
    let elements = sample_inputs().to_field_elements();
    assert_eq!(elements[0].to_le_bytes(), [1u8; 32]);
    assert_eq!(elements[1].to_le_bytes(), [2u8; 32]);
    assert_eq!(elements[2].to_le_bytes(), [3u8; 32]);
    assert_eq!(elements[3].to_le_bytes(), [4u8; 32]);
    let mut nonce = [0u8; 32];
    nonce[0] = 42;
    assert_eq!(elements[4].to_le_bytes(), nonce);
    let mut epoch = [0u8; 32];
    epoch[0] = 100;
    assert_eq!(elements[5].to_le_bytes(), epoch);
    assert_eq!(elements[4], FieldElement::from_u64(42));
}

#[test]
fn large_digests_are_reduced() {
    let inputs = MintPublicInputs {
        commitment_x: [0xff; 32],
        commitment_y: FR_MODULUS_LE,
        ..sample_inputs()
    };
    let elements = inputs.to_field_elements();
    assert_eq!(
        elements[0].to_le_bytes(),
        [
            250, 255, 255, 79, 28, 52, 150, 172, 41, 205, 96, 159, 149, 118, 252, 54, 46, 70, 121,
            120, 111, 163, 110, 102, 47, 223, 7, 154, 193, 119, 10, 14
        ]
    );
    assert_eq!(elements[1].to_le_bytes(), [0u8; 32]);
}

#[test]
fn reduction_around_the_modulus() {
    assert_eq!(FieldElement::from_le_bytes_mod_order(&FR_MODULUS_LE), FieldElement::from_u64(0));
    let mut above = FR_MODULUS_LE;
    above[0] = 2;
    assert_eq!(FieldElement::from_le_bytes_mod_order(&above), FieldElement::from_u64(1));
    let mut below = FR_MODULUS_LE;
    below[0] = 0;
    assert_eq!(FieldElement::from_le_bytes_mod_order(&below).to_le_bytes(), below);
    assert_eq!(FieldElement::from_le_bytes_mod_order(&[0u8; 32]), FieldElement::from_u64(0));
}

#[test]
fn numbers_are_embedded_as_they_are() {
    let mut expected = [0u8; 32];
    expected[..8].copy_from_slice(&[8, 7, 6, 5, 4, 3, 2, 1]);
    assert_eq!(FieldElement::from_u64(0x0102030405060708).to_le_bytes(), expected);
    let mut top = [0u8; 32];
    top[..8].copy_from_slice(&[0xff; 8]);
    assert_eq!(FieldElement::from_u64(u64::MAX).to_le_bytes(), top);
    assert_eq!(FieldElement::from_u64(0).to_le_bytes(), [0u8; 32]);
    assert_eq!(
        FieldElement::from_u64(u64::MAX),
        FieldElement::from_le_bytes_mod_order(&top)
    );
}

#[test]
fn integers_as_little_endian_bytes() {
    assert_eq!(u64_to_le_bytes(0), [0u8; 8]);
    assert_eq!(u64_to_le_bytes(42), [42, 0, 0, 0, 0, 0, 0, 0]);
    assert_eq!(u64_to_le_bytes(0x0102030405060708), [8, 7, 6, 5, 4, 3, 2, 1]);
    assert_eq!(u64_to_le_bytes(u64::MAX), [0xff; 8]);
    assert_eq!(u64_from_le_bytes(&[8, 7, 6, 5, 4, 3, 2, 1]), 0x0102030405060708);
    assert_eq!(u64_from_le_bytes(&[0xff; 8]), u64::MAX);
    assert_eq!(u64_from_le_bytes(&[0; 8]), 0);
    for x in [1u64, 255, 256, 65_535, 1 << 32, u64::MAX - 1] {
        assert_eq!(u64_from_le_bytes(&u64_to_le_bytes(x)), x);
        assert_eq!(u64_to_le_bytes(x), x.to_le_bytes());
    }
    assert_eq!(low_le_bytes::<4>(7), [7, 0, 0, 0]);
    assert_eq!(low_le_bytes::<4>(0x1_0000_0002), [2, 0, 0, 0]);
    assert_eq!(low_le_bytes::<2>(0x0a0b0c), [0x0c, 0x0b]);
}

#[test]
fn arrays_are_read_where_asked() {
    let bytes: Vec<u8> = (0u8..40).collect();
    let head: [u8; 4] = read_array(&bytes, 0);
    assert_eq!(head, [0, 1, 2, 3]);
    let tail: [u8; 8] = read_array(&bytes, 32);
    assert_eq!(tail, [32, 33, 34, 35, 36, 37, 38, 39]);
    let none: [u8; 0] = read_array(&bytes, 40);
    assert_eq!(none, []);
}

#[test]
fn proof_holds_its_bytes() {
    let proof = Proof::from_bytes(vec![1, 2, 3]);
    assert_eq!(proof.size(), 3);
    assert_eq!(proof.to_bytes(), &[1, 2, 3]);
    assert_eq!(Proof::from_bytes(Vec::new()).size(), 0);
}

#[test]
fn errors_render_their_message() {
    assert_eq!(
        ZkpError::InvalidWitness("amount must be positive".to_string()).message(),
        "Invalid witness: amount must be positive"
    );
    assert_eq!(
        ZkpError::ProvingError("x".to_string()).message(),
        "Proof generation failed: x"
    );
    assert_eq!(ZkpError::VerificationFailed.message(), "Proof verification failed");
    assert_eq!(
        ZkpError::SerializationError("bad".to_string()).message(),
        "Serialization error: bad"
    );
    assert_eq!(ZkpError::IoError("gone".to_string()).message(), "IO error: gone");
    assert_eq!(ZkpError::InvalidPublicInput.message(), "Invalid public input");
}

#[test]
fn test_circuit_creation() {
    let witness = MintWitness {
        amount: 1_000_000,
        blinding: [0u8; 32],
        pubkey: [1u8; 32],
        daily_limit: 10_000_000,
    };

    let inputs = MintPublicInputs {
        commitment_x: [0u8; 32],
        commitment_y: [0u8; 32],
        authority_hash: witness.compute_authority_hash(),
        limit_hash: witness.compute_limit_hash(),
        nonce: 1,
        epoch: 100,
    };

    let circuit = MintCircuit::from_witness(&witness, &inputs);
    assert!(circuit.amount.is_some());
}

#[test]
fn circuit_carries_the_values_of_the_mint() {
    let witness = sample_witness();
    let inputs = sample_inputs();
    let circuit = MintCircuit::from_witness(&witness, &inputs);
    assert_eq!(circuit.amount, Some(1_000_000));
    assert_eq!(circuit.blinding, Some([0u8; 32]));
    assert_eq!(circuit.pubkey, Some([1u8; 32]));
    assert_eq!(circuit.daily_limit, Some(10_000_000));
    assert_eq!(circuit.commitment_x, Some([1u8; 32]));
    assert_eq!(circuit.commitment_y, Some([2u8; 32]));
    assert_eq!(circuit.authority_hash, Some([3u8; 32]));
    assert_eq!(circuit.limit_hash, Some([4u8; 32]));
    assert_eq!(circuit.nonce, Some(42));
    assert_eq!(circuit.epoch, Some(100));

    let empty = MintCircuit::empty();
    assert!(empty.amount.is_none());
    assert!(empty.blinding.is_none());
    assert!(empty.pubkey.is_none());
    assert!(empty.daily_limit.is_none());
    assert!(empty.commitment_x.is_none());
    assert!(empty.commitment_y.is_none());
    assert!(empty.authority_hash.is_none());
    assert!(empty.limit_hash.is_none());
    assert!(empty.nonce.is_none());
    assert!(empty.epoch.is_none());
}

fn one(variable: Variable) -> Vec<Term> {
    vec![Term { coefficient: FieldElement::from_u64(1), variable }]
}

fn consistent_circuit(witness: &MintWitness) -> MintCircuit {
    let inputs = MintPublicInputs {
        commitment_x: [0u8; 32],
        commitment_y: [0u8; 32],
        authority_hash: witness.compute_authority_hash(),
        limit_hash: witness.compute_limit_hash(),
        nonce: 1,
        epoch: 100,
    };
    MintCircuit::from_witness(witness, &inputs)
}

fn satisfied(circuit: MintCircuit) -> Option<bool> {
    let mut system = ConstraintSystem::new(false);
    circuit.generate_constraints(&mut system).unwrap();
    system.is_satisfied()
}

#[test]
fn synthesis_records_the_shape_in_setup_mode() {
    let mut system = ConstraintSystem::new(true);
    assert_eq!(system.num_instance_variables(), 1);
    assert_eq!(system.num_witness_variables(), 0);
    assert_eq!(system.num_constraints(), 0);
    assert!(MintCircuit::empty().generate_constraints(&mut system).is_ok());
    assert_eq!(system.num_instance_variables(), 1 + PUBLIC_INPUT_COUNT);
    assert_eq!(system.num_witness_variables(), WITNESS_COUNT);
    assert_eq!(system.num_constraints(), CONSTRAINT_COUNT);
    assert_eq!(system.is_satisfied(), None);
    assert_eq!(WITNESS_COUNT, 198);
    assert_eq!(CONSTRAINT_COUNT, 198);
}

#[test]
fn synthesis_needs_values_while_proving() {
    let mut system = ConstraintSystem::new(false);
    assert!(matches!(
        MintCircuit::empty().generate_constraints(&mut system),
        Err(ZkpError::ProvingError(_))
    ));

    let mut partial = MintCircuit::from_witness(&sample_witness(), &sample_inputs());
    partial.epoch = None;
    let mut system = ConstraintSystem::new(false);
    assert!(matches!(
        partial.generate_constraints(&mut system),
        Err(ZkpError::ProvingError(_))
    ));

    let mut no_key = MintCircuit::from_witness(&sample_witness(), &sample_inputs());
    no_key.pubkey = None;
    let mut system = ConstraintSystem::new(false);
    assert!(matches!(
        no_key.generate_constraints(&mut system),
        Err(ZkpError::ProvingError(_))
    ));

    let full = MintCircuit::from_witness(&sample_witness(), &sample_inputs());
    let mut system = ConstraintSystem::new(false);
    assert!(full.generate_constraints(&mut system).is_ok());
    assert_eq!(system.num_instance_variables(), 7);
    assert_eq!(system.num_witness_variables(), 198);
    assert_eq!(system.num_constraints(), 198);
}

#[test]
fn relation_holds_of_a_mint_within_the_policy() {
    assert_eq!(satisfied(consistent_circuit(&sample_witness())), Some(true));
    let at_limit = MintWitness { amount: 10_000_000, ..sample_witness() };
    assert_eq!(satisfied(consistent_circuit(&at_limit)), Some(true));
    let smallest = MintWitness { amount: 1, daily_limit: 1, ..sample_witness() };
    assert_eq!(satisfied(consistent_circuit(&smallest)), Some(true));
    let largest = MintWitness { amount: u64::MAX, daily_limit: u64::MAX, ..sample_witness() };
    assert_eq!(satisfied(consistent_circuit(&largest)), Some(true));
}

#[test]
fn relation_rejects_an_amount_outside_the_policy() {
    let zero = MintWitness { amount: 0, ..sample_witness() };
    assert_eq!(satisfied(consistent_circuit(&zero)), Some(false));
    let over = MintWitness { amount: 10_000_001, ..sample_witness() };
    assert_eq!(satisfied(consistent_circuit(&over)), Some(false));
    let far_over = MintWitness { amount: u64::MAX, daily_limit: 0, ..sample_witness() };
    assert_eq!(satisfied(consistent_circuit(&far_over)), Some(false));
    let zero_limit = MintWitness { amount: 0, daily_limit: 0, ..sample_witness() };
    assert_eq!(satisfied(consistent_circuit(&zero_limit)), Some(false));
}

#[test]
fn relation_rejects_digests_that_do_not_bind() {
    let witness = sample_witness();
    let mut wrong_key = consistent_circuit(&witness);
    wrong_key.authority_hash = Some([3u8; 32]);
    assert_eq!(satisfied(wrong_key), Some(false));

    let mut wrong_limit = consistent_circuit(&witness);
    wrong_limit.limit_hash = Some([4u8; 32]);
    assert_eq!(satisfied(wrong_limit), Some(false));

    let mut other_key = consistent_circuit(&witness);
    other_key.pubkey = Some([2u8; 32]);
    assert_eq!(satisfied(other_key), Some(false));

    let mut other_limit = consistent_circuit(&witness);
    other_limit.daily_limit = Some(10_000_001);
    assert_eq!(satisfied(other_limit), Some(false));
}

#[test]
fn variables_are_numbered_as_they_are_allocated() {
    let mut system = ConstraintSystem::new(false);
    let three = Some(FieldElement::from_u64(3));
    assert_eq!(system.new_input_variable(three).unwrap(), Variable::Instance(1));
    assert_eq!(system.new_witness_variable(three).unwrap(), Variable::Witness(0));
    assert_eq!(system.new_input_variable(three).unwrap(), Variable::Instance(2));
    assert_eq!(system.new_witness_variable(three).unwrap(), Variable::Witness(1));
    let equal = Constraint {
        a: one(Variable::Witness(0)),
        b: one(Variable::One),
        c: one(Variable::Instance(1)),
    };
    assert!(system.enforce_constraint(&equal).is_ok());
    assert_eq!(system.num_constraints(), 1);
    assert_eq!(system.is_satisfied(), Some(true));
    // 3 * 3 is not 3.
    let square = Constraint {
        a: one(Variable::Witness(0)),
        b: one(Variable::Witness(1)),
        c: one(Variable::Instance(2)),
    };
    assert!(system.enforce_constraint(&square).is_ok());
    assert_eq!(system.is_satisfied(), Some(false));
    assert!(matches!(
        system.new_input_variable(None),
        Err(ZkpError::ProvingError(_))
    ));
    // The variable is counted even though it has no value.
    assert_eq!(system.num_instance_variables(), 4);

    let mut shape = ConstraintSystem::new(true);
    assert_eq!(shape.new_input_variable(None).unwrap(), Variable::Instance(1));
    assert_eq!(shape.new_witness_variable(None).unwrap(), Variable::Witness(0));
}

#[test]
fn shape_is_read_off_the_synthesized_relation() {
    let shape = relation_shape();
    assert_eq!(shape.public_inputs, 6);
    assert_eq!(shape.witnesses, 198);
    assert_eq!(shape.constraints, relation_constraints(1, 0));
}

#[test]
fn linear_combinations_are_weighted_sums() {
    let mut system = ConstraintSystem::new(false);
    let w = |x: u64| Some(FieldElement::from_u64(x));
    system.new_witness_variable(w(5)).unwrap();
    system.new_witness_variable(w(7)).unwrap();
    system.new_witness_variable(w(19)).unwrap();
    // 2 * 5 + 7 + 2 = 19
    let sum = Constraint {
        a: vec![
            Term { coefficient: FieldElement::from_u64(2), variable: Variable::Witness(0) },
            Term { coefficient: FieldElement::from_u64(1), variable: Variable::Witness(1) },
            Term { coefficient: FieldElement::from_u64(2), variable: Variable::One },
        ],
        b: one(Variable::One),
        c: one(Variable::Witness(2)),
    };
    system.enforce_constraint(&sum).unwrap();
    assert_eq!(system.is_satisfied(), Some(true));
    let off = Constraint {
        a: vec![
            Term { coefficient: FieldElement::from_u64(3), variable: Variable::Witness(0) },
            Term { coefficient: FieldElement::from_u64(1), variable: Variable::Witness(1) },
        ],
        b: one(Variable::One),
        c: one(Variable::Witness(2)),
    };
    system.enforce_constraint(&off).unwrap();
    assert_eq!(system.is_satisfied(), Some(false));
}

#[test]
fn relation_has_six_equations_and_a_constraint_for_each_bit() {
    let constraints = relation_constraints(1, 0);
    assert_eq!(constraints.len(), 198);
    assert_eq!(
        constraints[0],
        Constraint {
            a: one(Variable::Witness(0)),
            b: one(Variable::One),
            c: one(Variable::Witness(3)),
        }
    );
    assert_eq!(
        constraints[1],
        Constraint {
            a: one(Variable::Witness(4)),
            b: one(Variable::One),
            c: one(Variable::Instance(3)),
        }
    );
    assert_eq!(
        constraints[2],
        Constraint {
            a: one(Variable::Witness(5)),
            b: one(Variable::One),
            c: one(Variable::Instance(4)),
        }
    );
    // The amount is the weighted sum of its bits.
    assert_eq!(constraints[3].a.len(), 64);
    assert_eq!(
        constraints[3].a[0],
        Term { coefficient: FieldElement::from_u64(1), variable: Variable::Witness(6) }
    );
    assert_eq!(
        constraints[3].a[63],
        Term { coefficient: FieldElement::from_u64(1 << 63), variable: Variable::Witness(69) }
    );
    assert_eq!(constraints[3].c, one(Variable::Witness(0)));
    // One and the bits of the amount less one make the amount.
    assert_eq!(constraints[4].a.len(), 65);
    assert_eq!(constraints[4].a[0], one(Variable::One)[0]);
    assert_eq!(
        constraints[4].a[1],
        Term { coefficient: FieldElement::from_u64(1), variable: Variable::Witness(70) }
    );
    assert_eq!(constraints[4].c, one(Variable::Witness(0)));
    // The amount and the bits of the room under the limit make the limit.
    assert_eq!(constraints[5].a.len(), 65);
    assert_eq!(constraints[5].a[0], one(Variable::Witness(0))[0]);
    assert_eq!(
        constraints[5].a[64],
        Term { coefficient: FieldElement::from_u64(1 << 63), variable: Variable::Witness(197) }
    );
    assert_eq!(constraints[5].c, one(Variable::Witness(2)));
    for k in 0..192 {
        let bit = one(Variable::Witness(6 + k));
        assert_eq!(
            constraints[6 + k],
            Constraint { a: bit.clone(), b: bit.clone(), c: bit }
        );
    }
    // Other starting indices shift every variable.
    let shifted = relation_constraints(5, 10);
    assert_eq!(shifted[1].c, one(Variable::Instance(7)));
    assert_eq!(shifted[197].a, one(Variable::Witness(207)));
}

#[test]
fn test_on_chain_proof_size() {
    // Groth16 proofs are exactly 128 bytes compressed
    assert_eq!(
        32 + 64 + 32,  // a (G1) + b (G2) + c (G1)
        128
    );
}
