//! The relation that a mint proof attests, as a constraint system.
//!
//! Six public inputs are allocated in the order of the wire format, so
//! that the scalars the verifier derives from `MintPublicInputs` meet the
//! variables they belong to.
//!
//! The system enforces the policy by bit decomposition: the amount is the
//! weighted sum of 64 bits (its range), so is the amount less one (it is
//! positive), and so is the daily limit less the amount (it stays within
//! the limit). The two digests are computed beside the system and enter it
//! as private variables that are constrained to equal the public digests,
//! as scalars. The compression function of SHA-256 and the commitment are
//! not constrained inside the system: the laws below speak of the values
//! that synthesis assigns, and a prover that assigns other digests to the
//! private variables is not held by them.

use crate::encoding::le_value;
use crate::error::ZkpError;
use crate::field::{fr_modulus, FieldElement};
use crate::hash::{sha256, sha256_digest};
use crate::public_inputs::MintPublicInputs;
use crate::r1cs::{
    constraints_view,
    terms_view,
    Constraint,
    ConstraintSystem,
    SpecConstraint,
    SpecTerm,
    SystemState,
    Term,
    Variable,
};
use crate::witness::{limit_preimage, pad_limit, MintWitness};
use vstd::arithmetic::div_mod::{lemma_div_denominator, lemma_mod_breakdown};
use vstd::arithmetic::power2::{lemma2_to64, lemma2_to64_rest, lemma_pow2_pos, lemma_pow2_unfold, pow2};
use vstd::prelude::*;

verus! {

/// The number of public inputs of the relation.
pub const PUBLIC_INPUT_COUNT: usize = 6;

/// The number of private variables of the relation: the amount, the
/// blinding factor, the limit, the amount once more, the two digests, and
/// three times 64 bits.
pub const WITNESS_COUNT: usize = 198;

/// The number of constraints of the relation: six equations and one
/// constraint for each bit.
pub const CONSTRAINT_COUNT: usize = 198;

/// The relation with the values of one mint, or with none of them.
#[derive(Clone, Debug)]
pub struct MintCircuit {
    pub amount: Option<u64>,
    pub blinding: Option<[u8; 32]>,
    pub pubkey: Option<[u8; 32]>,
    pub daily_limit: Option<u64>,
    pub commitment_x: Option<[u8; 32]>,
    pub commitment_y: Option<[u8; 32]>,
    pub authority_hash: Option<[u8; 32]>,
    pub limit_hash: Option<[u8; 32]>,
    pub nonce: Option<u64>,
    pub epoch: Option<u64>,
}

/// The relation between a witness and public inputs that a mint proof is
/// meant to attest, but for the commitment: the amount is positive and
/// stays within the daily limit, and the two digests bind the minter's key
/// and the limit.
pub open spec fn mint_relation(witness: MintWitness, public_inputs: MintPublicInputs) -> bool {
    &&& 0 < witness.amount <= witness.daily_limit
    &&& public_inputs.authority_hash@ == sha256(witness.pubkey@)
    &&& public_inputs.limit_hash@ == sha256(limit_preimage(witness.daily_limit))
}

/// The scalar that bytes stand for.
pub open spec fn scalar_of(bytes: Seq<u8>) -> nat {
    le_value(bytes) % fr_modulus()
}

/// The scalar that 32 bytes stand for.
pub open spec fn reduced(bytes: [u8; 32]) -> nat {
    scalar_of(bytes@)
}

/// Bit `i` of `x`.
pub open spec fn bit(x: nat, i: nat) -> nat {
    (x / pow2(i)) % 2
}

/// The 64 low bits of `x`, lowest first.
pub open spec fn bits(x: nat) -> Seq<nat> {
    Seq::new(64, |i: int| bit(x, i as nat))
}

/// `a - b` as 64-bit arithmetic gives it: it wraps round where `b` is the
/// larger.
pub open spec fn gap(a: u64, b: u64) -> nat {
    if b <= a {
        (a - b) as nat
    } else {
        (a + 0x1_0000_0000_0000_0000 - b) as nat
    }
}

/// The private variable with index `n`.
pub open spec fn private(n: nat) -> Variable {
    Variable::Witness(n as usize)
}

/// The public input with index `n`.
pub open spec fn public(n: nat) -> Variable {
    Variable::Instance(n as usize)
}

/// The linear combination that is one variable.
pub open spec fn unit(v: Variable) -> Seq<SpecTerm> {
    seq![SpecTerm { coefficient: 1, variable: v }]
}

/// The weighted sum of `n` bits that are held by the private variables from
/// index `base` on: bit `i` has the weight `2^i`.
pub open spec fn weighted_bits(base: nat, n: nat) -> Seq<SpecTerm> {
    Seq::new(n, |i: int| SpecTerm { coefficient: pow2(i as nat), variable: private((base + i) as nat) })
}

/// The constraint `a = c`, written as `a * 1 = c`.
pub open spec fn equation(a: Seq<SpecTerm>, c: Seq<SpecTerm>) -> SpecConstraint {
    SpecConstraint { a, b: unit(Variable::One), c }
}

/// The constraint `v * v = v`, which only 0 and 1 satisfy.
pub open spec fn boolean(v: Variable) -> SpecConstraint {
    SpecConstraint { a: unit(v), b: unit(v), c: unit(v) }
}

/// The constraints of the relation, when its public inputs start at index
/// `i0` and its private variables at index `w0`:
/// the two copies of the amount agree; each digest variable equals its
/// public digest; the amount, the amount less one and the limit less the
/// amount are weighted sums of 64 bits; and every bit is 0 or 1.
pub open spec fn spec_relation_constraints(i0: nat, w0: nat) -> Seq<SpecConstraint> {
    seq![
        equation(unit(private(w0)), unit(private(w0 + 3))),
        equation(unit(private(w0 + 4)), unit(public(i0 + 2))),
        equation(unit(private(w0 + 5)), unit(public(i0 + 3))),
        equation(weighted_bits(w0 + 6, 64), unit(private(w0))),
        equation(unit(Variable::One) + weighted_bits(w0 + 70, 64), unit(private(w0))),
        equation(unit(private(w0)) + weighted_bits(w0 + 134, 64), unit(private(w0 + 2))),
    ] + Seq::new(192, |k: int| boolean(private((w0 + 6 + k) as nat)))
}

/// `a - b` in 64-bit arithmetic, wrapping.
fn wrapping_gap(a: u64, b: u64) -> (d: u64)
    ensures
        d == gap(a, b),
{
    if b <= a {
        a - b
    } else {
        u64::MAX - (b - a) + 1
    }
}

/// The linear combination that is one variable.
fn unit_terms(v: Variable) -> (terms: Vec<Term>)
    ensures
        terms_view(terms@) == unit(v),
{
    let mut terms: Vec<Term> = Vec::new();
    terms.push(Term { coefficient: FieldElement::from_u64(1), variable: v });
    proof {
        assert(terms_view(terms@) =~= unit(v));
    }
    terms
}

/// Appends to `lead` the weighted sum of the 64 bits held from index `base`
/// on.
fn weighted_terms(lead: Vec<Term>, base: usize) -> (terms: Vec<Term>)
    requires
        base + 64 <= usize::MAX,
    ensures
        terms_view(terms@) == terms_view(lead@) + weighted_bits(base as nat, 64),
{
    let mut terms = lead;
    let mut weight: u64 = 1;
    let mut i: usize = 0;
    proof {
        lemma2_to64();
        assert(terms_view(terms@) =~= terms_view(lead@) + weighted_bits(base as nat, 0));
    }
    while i < 64
        invariant
            i <= 64,
            base + 64 <= usize::MAX,
            i < 64 ==> weight == pow2(i as nat),
            terms_view(terms@) == terms_view(lead@) + weighted_bits(base as nat, i as nat),
        decreases 64 - i,
    {
        let ghost before = terms@;
        terms.push(Term { coefficient: FieldElement::from_u64(weight), variable: Variable::Witness(base + i) });
        proof {
            assert(terms_view(terms@) =~= terms_view(before).push(
                SpecTerm { coefficient: pow2(i as nat), variable: private((base + i) as nat) },
            ));
            assert(weighted_bits(base as nat, (i + 1) as nat) =~= weighted_bits(
                base as nat,
                i as nat,
            ).push(SpecTerm { coefficient: pow2(i as nat), variable: private((base + i) as nat) }));
            assert(terms_view(terms@) =~= terms_view(lead@) + weighted_bits(
                base as nat,
                (i + 1) as nat,
            ));
            lemma_pow2_unfold((i + 1) as nat);
            lemma2_to64();
            lemma2_to64_rest();
            if i + 1 < 64 {
                vstd::arithmetic::power2::lemma_pow2_strictly_increases((i + 1) as nat, 64);
            }
        }
        i = i + 1;
        if i < 64 {
            weight = weight * 2;
        }
    }
    terms
}

/// The constraint `a = c`.
fn equation_of(a: Vec<Term>, c: Vec<Term>) -> (constraint: Constraint)
    ensures
        constraint@ == equation(terms_view(a@), terms_view(c@)),
{
    Constraint { a, b: unit_terms(Variable::One), c }
}

/// The constraints of the relation, when its public inputs start at index
/// `first_instance` and its private variables at index `first_witness`.
pub fn relation_constraints(first_instance: usize, first_witness: usize) -> (constraints: Vec<
    Constraint,
>)
    requires
        first_instance + 6 <= usize::MAX,
        first_witness + 198 <= usize::MAX,
    ensures
        constraints_view(constraints@) == spec_relation_constraints(
            first_instance as nat,
            first_witness as nat,
        ),
        constraints@.len() == CONSTRAINT_COUNT,
{
    let w0 = first_witness;
    let amount = Variable::Witness(w0);
    let mut constraints: Vec<Constraint> = Vec::new();
    constraints.push(equation_of(unit_terms(amount), unit_terms(Variable::Witness(w0 + 3))));
    constraints.push(
        equation_of(
            unit_terms(Variable::Witness(w0 + 4)),
            unit_terms(Variable::Instance(first_instance + 2)),
        ),
    );
    constraints.push(
        equation_of(
            unit_terms(Variable::Witness(w0 + 5)),
            unit_terms(Variable::Instance(first_instance + 3)),
        ),
    );
    constraints.push(equation_of(weighted_terms(Vec::new(), w0 + 6), unit_terms(amount)));
    constraints.push(
        equation_of(weighted_terms(unit_terms(Variable::One), w0 + 70), unit_terms(amount)),
    );
    constraints.push(
        equation_of(
            weighted_terms(unit_terms(amount), w0 + 134),
            unit_terms(Variable::Witness(w0 + 2)),
        ),
    );
    let ghost head = constraints_view(constraints@);
    proof {
        assert(terms_view(Seq::<Term>::empty()) + weighted_bits((w0 + 6) as nat, 64)
            =~= weighted_bits((w0 + 6) as nat, 64));
        assert(head =~= spec_relation_constraints(first_instance as nat, w0 as nat).subrange(0, 6));
    }
    let mut k: usize = 0;
    while k < 192
        invariant
            k <= 192,
            w0 + 198 <= usize::MAX,
            constraints@.len() == 6 + k,
            constraints_view(constraints@) == head + Seq::new(
                k as nat,
                |j: int| boolean(private((w0 + 6 + j) as nat)),
            ),
        decreases 192 - k,
    {
        let v = Variable::Witness(w0 + 6 + k);
        let ghost before = constraints@;
        constraints.push(Constraint { a: unit_terms(v), b: unit_terms(v), c: unit_terms(v) });
        proof {
            assert(constraints_view(constraints@) =~= constraints_view(before).push(boolean(v)));
            assert(constraints_view(constraints@) =~= head + Seq::new(
                (k + 1) as nat,
                |j: int| boolean(private((w0 + 6 + j) as nat)),
            ));
        }
        k = k + 1;
    }
    proof {
        assert(constraints_view(constraints@) =~= spec_relation_constraints(
            first_instance as nat,
            w0 as nat,
        ));
    }
    constraints
}

impl MintCircuit {
    /// Whether the circuit carries all its values.
    pub open spec fn is_assigned(&self) -> bool {
        &&& self.amount is Some
        &&& self.blinding is Some
        &&& self.pubkey is Some
        &&& self.daily_limit is Some
        &&& self.commitment_x is Some
        &&& self.commitment_y is Some
        &&& self.authority_hash is Some
        &&& self.limit_hash is Some
        &&& self.nonce is Some
        &&& self.epoch is Some
    }

    /// The values of the public inputs, in the order of their allocation.
    pub open spec fn spec_instance_values(&self) -> Seq<nat> {
        seq![
            reduced(self.commitment_x->0),
            reduced(self.commitment_y->0),
            reduced(self.authority_hash->0),
            reduced(self.limit_hash->0),
            self.nonce->0 as nat,
            self.epoch->0 as nat,
        ]
    }

    /// The values of the private variables, in the order of their
    /// allocation: the amount, the blinding factor, the limit, the amount
    /// again, the digest of the key and the digest of the limit as scalars,
    /// then the bits of the amount, of the amount less one, and of the
    /// limit less the amount.
    pub open spec fn spec_witness_values(&self) -> Seq<nat> {
        seq![
            self.amount->0 as nat,
            reduced(self.blinding->0),
            self.daily_limit->0 as nat,
            self.amount->0 as nat,
            scalar_of(sha256((self.pubkey->0)@)),
            scalar_of(sha256(limit_preimage(self.daily_limit->0))),
        ] + bits(self.amount->0 as nat) + bits(gap(self.amount->0, 1)) + bits(
            gap(self.daily_limit->0, self.amount->0),
        )
    }

    /// What synthesis makes of a system in state `s`.
    pub open spec fn synthesized(&self, s: SystemState) -> SystemState {
        SystemState {
            setup: s.setup,
            num_instance: s.num_instance + 6,
            num_witness: s.num_witness + 198,
            instance: if s.setup {
                s.instance
            } else {
                s.instance + self.spec_instance_values()
            },
            witness: if s.setup {
                s.witness
            } else {
                s.witness + self.spec_witness_values()
            },
            constraints: s.constraints + spec_relation_constraints(s.num_instance, s.num_witness),
        }
    }

    /// The circuit without values.
    pub open spec fn spec_empty() -> MintCircuit {
        MintCircuit {
            amount: None,
            blinding: None,
            pubkey: None,
            daily_limit: None,
            commitment_x: None,
            commitment_y: None,
            authority_hash: None,
            limit_hash: None,
            nonce: None,
            epoch: None,
        }
    }

    /// The circuit with the values of one mint.
    pub open spec fn spec_from_witness(
        witness: MintWitness,
        public_inputs: MintPublicInputs,
    ) -> MintCircuit {
        MintCircuit {
            amount: Some(witness.amount),
            blinding: Some(witness.blinding),
            pubkey: Some(witness.pubkey),
            daily_limit: Some(witness.daily_limit),
            commitment_x: Some(public_inputs.commitment_x),
            commitment_y: Some(public_inputs.commitment_y),
            authority_hash: Some(public_inputs.authority_hash),
            limit_hash: Some(public_inputs.limit_hash),
            nonce: Some(public_inputs.nonce),
            epoch: Some(public_inputs.epoch),
        }
    }

    /// The circuit without values, as key generation takes it.
    pub fn empty() -> (circuit: MintCircuit)
        ensures
            circuit == MintCircuit::spec_empty(),
    {
        MintCircuit {
            amount: None,
            blinding: None,
            pubkey: None,
            daily_limit: None,
            commitment_x: None,
            commitment_y: None,
            authority_hash: None,
            limit_hash: None,
            nonce: None,
            epoch: None,
        }
    }

    /// The circuit with the values of one mint.
    pub fn from_witness(witness: &MintWitness, public_inputs: &MintPublicInputs) -> (circuit:
        MintCircuit)
        ensures
            circuit == MintCircuit::spec_from_witness(*witness, *public_inputs),
    {
        MintCircuit {
            amount: Some(witness.amount),
            blinding: Some(witness.blinding),
            pubkey: Some(witness.pubkey),
            daily_limit: Some(witness.daily_limit),
            commitment_x: Some(public_inputs.commitment_x),
            commitment_y: Some(public_inputs.commitment_y),
            authority_hash: Some(public_inputs.authority_hash),
            limit_hash: Some(public_inputs.limit_hash),
            nonce: Some(public_inputs.nonce),
            epoch: Some(public_inputs.epoch),
        }
    }

    /// Allocates the variables of the relation in `cs` and enforces its
    /// constraints.
    ///
    /// In setup mode this always succeeds and only the shape is recorded.
    /// While proving it succeeds if and only if the circuit carries its
    /// values, and then the public inputs are assigned, in this order:
    /// commitment x, commitment y, authority hash, limit hash, nonce, epoch.
    pub fn generate_constraints(self, cs: &mut ConstraintSystem) -> (result: Result<(), ZkpError>)
        requires
            old(cs)@.num_instance + 6 <= usize::MAX,
            old(cs)@.num_witness + 198 <= usize::MAX,
            old(cs)@.constraints.len() + 198 <= usize::MAX,
        ensures
            result is Ok <==> old(cs)@.setup || self.is_assigned(),
            result is Ok ==> final(cs)@ == self.synthesized(old(cs)@),
            result matches Err(e) ==> e is ProvingError,
    {
        let first_instance: usize = cs.num_instance_variables();
        let first_witness: usize = cs.num_witness_variables();

        let _amount = cs.new_witness_variable(embed(self.amount))?;
        let _blinding = cs.new_witness_variable(reduce(self.blinding))?;

        let _commitment_x = cs.new_input_variable(reduce(self.commitment_x))?;
        let _commitment_y = cs.new_input_variable(reduce(self.commitment_y))?;
        let _authority_hash = cs.new_input_variable(reduce(self.authority_hash))?;
        let _limit_hash = cs.new_input_variable(reduce(self.limit_hash))?;
        let _nonce = cs.new_input_variable(embed(self.nonce))?;
        let _epoch = cs.new_input_variable(embed(self.epoch))?;

        let _daily_limit = cs.new_witness_variable(embed(self.daily_limit))?;
        let _amount_again = cs.new_witness_variable(embed(self.amount))?;

        let _key_digest = cs.new_witness_variable(key_digest(self.pubkey))?;
        let _limit_digest = cs.new_witness_variable(limit_digest(self.daily_limit))?;

        allocate_bits(cs, self.amount)?;
        allocate_bits(cs, less(self.amount, Some(1)))?;
        allocate_bits(cs, less(self.daily_limit, self.amount))?;

        let constraints = relation_constraints(first_instance, first_witness);
        let ghost allocated = cs@;
        let ghost added = constraints_view(constraints@);
        proof {
            assert(allocated.witness =~= self.synthesized(old(cs)@).witness);
            assert(allocated.instance =~= self.synthesized(old(cs)@).instance);
        }
        let mut k: usize = 0;
        while k < constraints.len()
            invariant
                k <= constraints@.len(),
                constraints@.len() == 198,
                added == constraints_view(constraints@),
                allocated.constraints.len() + 198 <= usize::MAX,
                cs@ == (SystemState {
                    constraints: allocated.constraints + added.subrange(0, k as int),
                    ..allocated
                }),
            decreases constraints@.len() - k,
        {
            let r = cs.enforce_constraint(&constraints[k]);
            proof {
                assert(added.subrange(0, k + 1) =~= added.subrange(0, k as int).push(
                    constraints@[k as int]@,
                ));
            }
            k = k + 1;
        }
        proof {
            assert(added.subrange(0, k as int) =~= added);
            assert(cs@ =~= self.synthesized(old(cs)@));
        }
        Ok(())
    }
}

/// The shape of the relation: what key generation needs to know of it.
#[derive(Clone, Debug)]
pub struct CircuitShape {
    /// The number of public inputs, the constant one not counted.
    pub public_inputs: usize,
    /// The number of private variables.
    pub witnesses: usize,
    /// The constraints, over variables numbered as in a fresh system.
    pub constraints: Vec<Constraint>,
}

/// The shape of the relation, read off a fresh system in setup mode after
/// the circuit without values was synthesized into it.
pub fn relation_shape() -> (shape: CircuitShape)
    ensures
        shape.public_inputs == PUBLIC_INPUT_COUNT,
        shape.witnesses == WITNESS_COUNT,
        shape.constraints@.len() == CONSTRAINT_COUNT,
        ({
            let system = MintCircuit::spec_empty().synthesized(SystemState::fresh(true));
            &&& system.num_instance == 1 + shape.public_inputs
            &&& system.num_witness == shape.witnesses
            &&& system.constraints == constraints_view(shape.constraints@)
        }),
{
    let mut system = ConstraintSystem::new(true);
    let synthesized = MintCircuit::empty().generate_constraints(&mut system);
    assert(synthesized is Ok);
    let shape = CircuitShape {
        public_inputs: system.num_instance_variables() - 1,
        witnesses: system.num_witness_variables(),
        constraints: relation_constraints(1, 0),
    };
    proof {
        assert(system@.constraints =~= constraints_view(shape.constraints@));
    }
    shape
}

/// What a system in state `s` becomes when `n` private variables are
/// allocated with the values `values`.
pub open spec fn extended(s: SystemState, n: nat, values: Seq<nat>) -> SystemState {
    SystemState {
        num_witness: s.num_witness + n,
        witness: if s.setup {
            s.witness
        } else {
            s.witness + values
        },
        ..s
    }
}

/// Allocates 64 private variables that hold the bits of `value`, lowest
/// first.
fn allocate_bits(cs: &mut ConstraintSystem, value: Option<u64>) -> (result: Result<(), ZkpError>)
    requires
        old(cs)@.num_witness + 64 <= usize::MAX,
    ensures
        result is Ok <==> old(cs)@.setup || value is Some,
        result is Ok ==> final(cs)@ == extended(old(cs)@, 64, bits(value->0 as nat)),
        result matches Err(e) ==> e is ProvingError,
{
    let present = value.is_some();
    let x: u64 = match value {
        Some(x) => x,
        None => 0,
    };
    let ghost start = cs@;
    let mut rest: u64 = x;
    let mut i: usize = 0;
    proof {
        lemma2_to64();
        assert(bits(x as nat).subrange(0, 0) =~= Seq::<nat>::empty());
        assert(start.witness + Seq::<nat>::empty() =~= start.witness);
    }
    while i < 64
        invariant
            i <= 64,
            present == (value is Some),
            value matches Some(v) ==> v == x,
            start.num_witness + 64 <= usize::MAX,
            start == old(cs)@,
            i > 0 ==> start.setup || present,
            rest == (x as nat) / pow2(i as nat),
            cs@ == extended(start, i as nat, bits(x as nat).subrange(0, i as int)),
        decreases 64 - i,
    {
        let bit_value: Option<FieldElement> = if present {
            Some(FieldElement::from_u64(rest % 2))
        } else {
            None
        };
        let ghost before = cs@;
        match cs.new_witness_variable(bit_value) {
            Ok(_) => {},
            Err(e) => {
                return Err(e);
            },
        }
        proof {
            lemma_pow2_pos(i as nat);
            lemma_pow2_unfold((i + 1) as nat);
            lemma_div_denominator(x as int, pow2(i as nat) as int, 2);
            assert(pow2(i as nat) * 2 == pow2((i + 1) as nat));
            assert(bits(x as nat)[i as int] == bit(x as nat, i as nat));
            assert(bits(x as nat).subrange(0, i + 1) =~= bits(x as nat).subrange(0, i as int).push(
                (rest % 2) as nat,
            ));
            assert(cs@ =~= extended(start, (i + 1) as nat, bits(x as nat).subrange(0, i + 1)));
        }
        rest = rest / 2;
        i = i + 1;
    }
    proof {
        assert(bits(x as nat).subrange(0, 64) =~= bits(x as nat));
    }
    Ok(())
}

/// `a - b`, wrapping, if both are there.
fn less(a: Option<u64>, b: Option<u64>) -> (d: Option<u64>)
    ensures
        d is Some <==> a is Some && b is Some,
        d matches Some(x) ==> x == gap(a->0, b->0),
{
    match (a, b) {
        (Some(a), Some(b)) => Some(wrapping_gap(a, b)),
        _ => None,
    }
}

/// The digest of the key as a scalar, if there is a key.
fn key_digest(pubkey: Option<[u8; 32]>) -> (scalar: Option<FieldElement>)
    ensures
        scalar is Some <==> pubkey is Some,
        pubkey matches Some(key) ==> scalar->0@ == scalar_of(sha256(key@)),
{
    match pubkey {
        Some(key) => {
            let digest = sha256_digest(&key);
            Some(FieldElement::from_le_bytes_mod_order(&digest))
        },
        None => None,
    }
}

/// The digest of the limit as a scalar, if there is a limit.
fn limit_digest(daily_limit: Option<u64>) -> (scalar: Option<FieldElement>)
    ensures
        scalar is Some <==> daily_limit is Some,
        daily_limit matches Some(limit) ==> scalar->0@ == scalar_of(sha256(limit_preimage(limit))),
{
    match daily_limit {
        Some(limit) => {
            let padded = pad_limit(limit);
            let digest = sha256_digest(&padded);
            Some(FieldElement::from_le_bytes_mod_order(&digest))
        },
        None => None,
    }
}

/// A 64-bit value as a scalar, if there is one.
fn embed(value: Option<u64>) -> (scalar: Option<FieldElement>)
    ensures
        scalar is Some <==> value is Some,
        value matches Some(x) ==> scalar->0@ == x,
{
    match value {
        Some(x) => Some(FieldElement::from_u64(x)),
        None => None,
    }
}

/// 32 bytes as a scalar, if there are any.
fn reduce(value: Option<[u8; 32]>) -> (scalar: Option<FieldElement>)
    ensures
        scalar is Some <==> value is Some,
        value matches Some(bytes) ==> scalar->0@ == reduced(bytes),
{
    match value {
        Some(bytes) => Some(FieldElement::from_le_bytes_mod_order(&bytes)),
        None => None,
    }
}

/// Synthesis keeps a system complete: if every variable had its value and
/// no constraint spoke of a variable that was not allocated, the same is
/// true afterwards.
pub proof fn lemma_synthesis_closed(circuit: MintCircuit, s: SystemState)
    requires
        circuit.is_assigned(),
        s.assigned(),
        s.closed(),
        s.num_instance + 6 <= usize::MAX,
        s.num_witness + 198 <= usize::MAX,
    ensures
        circuit.synthesized(s).assigned(),
        circuit.synthesized(s).closed(),
{
    let t = circuit.synthesized(s);
    let added = spec_relation_constraints(s.num_instance, s.num_witness);
    assert forall|k: int| 0 <= k < t.constraints.len() implies {
        &&& t.covers(#[trigger] t.constraints[k].a)
        &&& t.covers(t.constraints[k].b)
        &&& t.covers(t.constraints[k].c)
    } by {
        if k < s.constraints.len() {
            assert(t.constraints[k] == s.constraints[k]);
            assert(s.covers(s.constraints[k].a));
            assert(s.covers(s.constraints[k].b));
            assert(s.covers(s.constraints[k].c));
        } else {
            lemma_relation_covered(t, s.num_instance, s.num_witness, k - s.constraints.len());
            assert(t.constraints[k] == added[k - s.constraints.len()]);
        }
    }
}

/// Every constraint of the relation speaks of variables of the relation
/// only.
proof fn lemma_relation_covered(t: SystemState, i0: nat, w0: nat, k: int)
    requires
        0 <= k < 198,
        i0 + 6 <= t.num_instance,
        w0 + 198 <= t.num_witness,
        t.num_instance <= usize::MAX,
        t.num_witness <= usize::MAX,
    ensures
        spec_relation_constraints(i0, w0).len() == 198,
        t.covers(spec_relation_constraints(i0, w0)[k].a),
        t.covers(spec_relation_constraints(i0, w0)[k].b),
        t.covers(spec_relation_constraints(i0, w0)[k].c),
{
}

/// A linear combination of one variable has the value of the variable.
pub proof fn lemma_eval_unit(t: SystemState, v: Variable)
    ensures
        t.eval(unit(v)) == t.value(v),
{
    assert(unit(v).drop_last() =~= Seq::<SpecTerm>::empty());
    assert(t.eval(unit(v).drop_last()) == 0);
    assert(unit(v).last().coefficient == 1);
}

/// The value of the private variable `i` places after `base`.
pub open spec fn held(t: SystemState, base: nat, i: int) -> nat {
    t.witness[base + i]
}

/// The weighted sum of the bits of `x` is `x`, as far as the bits go: where
/// the private variables from `base` on hold the `n` low bits of `x`, the
/// sum adds `x mod 2^n` to what stands before it.
pub proof fn lemma_eval_weighted(t: SystemState, lead: Seq<SpecTerm>, base: nat, x: nat, n: nat)
    requires
        n <= 64,
        base + 64 <= usize::MAX,
        base + n <= t.witness.len(),
        forall|i: int| 0 <= i < n ==> #[trigger] held(t, base, i) == bit(x, i as nat),
    ensures
        t.eval(lead + weighted_bits(base, n)) == t.eval(lead) + x % pow2(n),
    decreases n,
{
    lemma2_to64();
    if n == 0 {
        assert(lead + weighted_bits(base, 0) =~= lead);
    } else {
        let m = (n - 1) as nat;
        let full = lead + weighted_bits(base, n);
        assert(full.drop_last() =~= lead + weighted_bits(base, m));
        assert(full.last() == SpecTerm { coefficient: pow2(m), variable: private(base + m) });
        lemma_eval_weighted(t, lead, base, x, m);
        assert(held(t, base, m as int) == bit(x, m));
        assert(t.value(private(base + m)) == bit(x, m));
        lemma_pow2_pos(m);
        lemma_pow2_unfold(n);
        lemma_mod_breakdown(x as int, pow2(m) as int, 2);
        assert(pow2(m) * 2 == pow2(n));
        assert(x % pow2(n) == pow2(m) * bit(x, m) + x % pow2(m));
    }
}

/// A number below `2^64` is the weighted sum of its 64 low bits.
proof fn lemma_low_bits(x: nat)
    requires
        x < 0x1_0000_0000_0000_0000,
    ensures
        x % pow2(64) == x,
{
    lemma2_to64_rest();
}

/// What the relation enforces. If the system that synthesis makes of a
/// circuit with all its values is satisfied, then the amount is positive
/// and within the limit, and each public digest is, as a scalar, the
/// SHA-256 digest of what it binds: the key, and the padded limit.
///
/// The public inputs are scalars, so the digests are compared modulo the
/// field order.
pub proof fn lemma_relation_enforces(circuit: MintCircuit, s: SystemState)
    requires
        circuit.is_assigned(),
        s.assigned(),
        s.num_instance + 6 <= usize::MAX,
        s.num_witness + 198 <= usize::MAX,
        circuit.synthesized(s).satisfied(),
    ensures
        0 < circuit.amount->0 <= circuit.daily_limit->0,
        reduced(circuit.authority_hash->0) == scalar_of(sha256((circuit.pubkey->0)@)),
        reduced(circuit.limit_hash->0) == scalar_of(
            sha256(limit_preimage(circuit.daily_limit->0)),
        ),
{
    let t = circuit.synthesized(s);
    let n0 = s.constraints.len() as int;
    let i0 = s.num_instance;
    let w0 = s.num_witness;
    let added = spec_relation_constraints(i0, w0);
    let amount = circuit.amount->0;
    let limit = circuit.daily_limit->0;
    let values = circuit.spec_witness_values();
    assert(t.witness == s.witness + values);
    assert(values.len() == 198);
    lemma_eval_unit(t, Variable::One);
    lemma_eval_unit(t, private(w0));
    lemma_eval_unit(t, private(w0 + 2));
    lemma_eval_unit(t, private(w0 + 4));
    lemma_eval_unit(t, private(w0 + 5));
    lemma_eval_unit(t, public(i0 + 2));
    lemma_eval_unit(t, public(i0 + 3));
    assert(t.value(private(w0)) == amount) by {
        assert(t.witness[w0 as int] == values[0]);
    }
    assert(t.value(private(w0 + 2)) == limit) by {
        assert(t.witness[(w0 + 2) as int] == values[2]);
    }
    assert(t.value(private(w0 + 4)) == scalar_of(sha256((circuit.pubkey->0)@))) by {
        assert(t.witness[(w0 + 4) as int] == values[4]);
    }
    assert(t.value(private(w0 + 5)) == scalar_of(sha256(limit_preimage(limit)))) by {
        assert(t.witness[(w0 + 5) as int] == values[5]);
    }
    assert(t.value(public(i0 + 2)) == reduced(circuit.authority_hash->0)) by {
        assert(t.instance[(i0 + 2) as int] == circuit.spec_instance_values()[2]);
    }
    assert(t.value(public(i0 + 3)) == reduced(circuit.limit_hash->0)) by {
        assert(t.instance[(i0 + 3) as int] == circuit.spec_instance_values()[3]);
    }
    // The two digests.
    assert(t.holds(t.constraints[n0 + 1])) by {
        assert(t.constraints[n0 + 1] == added[1]);
    }
    assert(t.holds(t.constraints[n0 + 2])) by {
        assert(t.constraints[n0 + 2] == added[2]);
    }
    assert(t.constraints[n0 + 1] == added[1]);
    assert(t.constraints[n0 + 2] == added[2]);
    lemma_times_one(t.eval(unit(private(w0 + 4))), t.eval(unit(Variable::One)));
    lemma_times_one(t.eval(unit(private(w0 + 5))), t.eval(unit(Variable::One)));
    // The amount is at least one.
    let below = gap(amount, 1);
    assert forall|i: int| 0 <= i < 64 implies #[trigger] held(t, w0 + 70, i) == bit(
        below,
        i as nat,
    ) by {
        assert(t.witness[w0 + 70 + i] == values[70 + i]);
        assert(values[70 + i] == bits(below)[i]);
    }
    lemma_eval_weighted(t, unit(Variable::One), w0 + 70, below, 64);
    lemma_low_bits(below);
    assert(t.holds(t.constraints[n0 + 4])) by {
        assert(t.constraints[n0 + 4] == added[4]);
    }
    assert(t.constraints[n0 + 4] == added[4]);
    lemma_times_one(
        t.eval(unit(Variable::One) + weighted_bits(w0 + 70, 64)),
        t.eval(unit(Variable::One)),
    );
    assert(1 + below == amount);
    // The amount is at most the limit.
    let room = gap(limit, amount);
    assert forall|i: int| 0 <= i < 64 implies #[trigger] held(t, w0 + 134, i) == bit(
        room,
        i as nat,
    ) by {
        assert(t.witness[w0 + 134 + i] == values[134 + i]);
        assert(values[134 + i] == bits(room)[i]);
    }
    lemma_eval_weighted(t, unit(private(w0)), w0 + 134, room, 64);
    lemma_low_bits(room);
    assert(t.holds(t.constraints[n0 + 5])) by {
        assert(t.constraints[n0 + 5] == added[5]);
    }
    assert(t.constraints[n0 + 5] == added[5]);
    lemma_times_one(
        t.eval(unit(private(w0)) + weighted_bits(w0 + 134, 64)),
        t.eval(unit(Variable::One)),
    );
    assert(amount + room == limit);
}

/// Multiplying by a linear combination that is one changes nothing.
proof fn lemma_times_one(a: nat, b: nat)
    requires
        b == 1,
    ensures
        a * b == a,
{
}

/// Variables that were allocated keep their values when more are allocated:
/// a linear combination over them keeps its value.
pub proof fn lemma_eval_extends(s: SystemState, t: SystemState, terms: Seq<SpecTerm>)
    requires
        s.covers(terms),
        s.instance.len() == s.num_instance,
        s.witness.len() == s.num_witness,
        s.instance.len() <= t.instance.len(),
        s.witness.len() <= t.witness.len(),
        t.instance.subrange(0, s.instance.len() as int) == s.instance,
        t.witness.subrange(0, s.witness.len() as int) == s.witness,
    ensures
        t.eval(terms) == s.eval(terms),
    decreases terms.len(),
{
    if terms.len() > 0 {
        let front = terms.drop_last();
        assert forall|j: int| 0 <= j < front.len() implies s.allocated(
            #[trigger] front[j].variable,
        ) by {
            assert(front[j] == terms[j]);
        }
        lemma_eval_extends(s, t, front);
        let v = terms.last().variable;
        assert(s.allocated(terms[terms.len() - 1].variable));
        match v {
            Variable::One => {},
            Variable::Instance(i) => {
                assert(t.instance.subrange(0, s.instance.len() as int)[i as int] == t.instance[i as int]);
            },
            Variable::Witness(i) => {
                assert(t.witness.subrange(0, s.witness.len() as int)[i as int] == t.witness[i as int]);
            },
        }
    }
}

/// The relation can be satisfied by every mint that keeps the policy. If
/// the amount is positive and within the limit and the public digests are,
/// as scalars, the digests of the key and of the padded limit, then
/// synthesis turns a satisfied system into a satisfied system.
pub proof fn lemma_relation_satisfiable(circuit: MintCircuit, s: SystemState)
    requires
        circuit.is_assigned(),
        s.assigned(),
        s.closed(),
        s.satisfied(),
        s.num_instance + 6 <= usize::MAX,
        s.num_witness + 198 <= usize::MAX,
        0 < circuit.amount->0 <= circuit.daily_limit->0,
        reduced(circuit.authority_hash->0) == scalar_of(sha256((circuit.pubkey->0)@)),
        reduced(circuit.limit_hash->0) == scalar_of(
            sha256(limit_preimage(circuit.daily_limit->0)),
        ),
    ensures
        circuit.synthesized(s).satisfied(),
{
    let t = circuit.synthesized(s);
    let n0 = s.constraints.len() as int;
    let i0 = s.num_instance;
    let w0 = s.num_witness;
    let added = spec_relation_constraints(i0, w0);
    let amount = circuit.amount->0;
    let limit = circuit.daily_limit->0;
    let values = circuit.spec_witness_values();
    assert(t.witness == s.witness + values);
    assert(values.len() == 198);
    assert(t.instance.subrange(0, s.instance.len() as int) =~= s.instance);
    assert(t.witness.subrange(0, s.witness.len() as int) =~= s.witness);
    lemma_eval_unit(t, Variable::One);
    assert forall|k: int| 0 <= k < t.constraints.len() implies t.holds(
        #[trigger] t.constraints[k],
    ) by {
        if k < n0 {
            let c = s.constraints[k];
            assert(t.constraints[k] == c);
            assert(s.covers(s.constraints[k].a));
            assert(s.covers(s.constraints[k].b));
            assert(s.covers(s.constraints[k].c));
            lemma_eval_extends(s, t, c.a);
            lemma_eval_extends(s, t, c.b);
            lemma_eval_extends(s, t, c.c);
            assert(s.holds(s.constraints[k]));
        } else {
            let j = k - n0;
            assert(t.constraints[k] == added[j]);
            if j >= 6 {
                let m = j;
                let v = private((w0 + m) as nat);
                assert(added[j] == boolean(v));
                lemma_eval_unit(t, v);
                assert(t.value(v) == values[m]) by {
                    assert(t.witness[w0 + m] == values[m]);
                }
                assert(values[m] < 2) by {
                    if m < 70 {
                        assert(values[m] == bits(amount as nat)[m - 6]);
                    } else if m < 134 {
                        assert(values[m] == bits(gap(amount, 1))[m - 70]);
                    } else {
                        assert(values[m] == bits(gap(limit, amount))[m - 134]);
                    }
                }
                lemma_bit_squared(values[m]);
            } else if j == 0 {
                lemma_eval_unit(t, private(w0));
                lemma_eval_unit(t, private(w0 + 3));
                assert(t.witness[w0 as int] == values[0]);
                assert(t.witness[(w0 + 3) as int] == values[3]);
                lemma_times_one(t.eval(unit(private(w0))), t.eval(unit(Variable::One)));
            } else if j == 1 {
                lemma_eval_unit(t, private(w0 + 4));
                lemma_eval_unit(t, public(i0 + 2));
                assert(t.witness[(w0 + 4) as int] == values[4]);
                assert(t.instance[(i0 + 2) as int] == circuit.spec_instance_values()[2]);
                lemma_times_one(t.eval(unit(private(w0 + 4))), t.eval(unit(Variable::One)));
            } else if j == 2 {
                lemma_eval_unit(t, private(w0 + 5));
                lemma_eval_unit(t, public(i0 + 3));
                assert(t.witness[(w0 + 5) as int] == values[5]);
                assert(t.instance[(i0 + 3) as int] == circuit.spec_instance_values()[3]);
                lemma_times_one(t.eval(unit(private(w0 + 5))), t.eval(unit(Variable::One)));
            } else if j == 3 {
                let x = amount as nat;
                assert forall|i: int| 0 <= i < 64 implies #[trigger] held(t, w0 + 6, i) == bit(
                    x,
                    i as nat,
                ) by {
                    assert(t.witness[w0 + 6 + i] == values[6 + i]);
                    assert(values[6 + i] == bits(x)[i]);
                }
                let none = Seq::<SpecTerm>::empty();
                lemma_eval_weighted(t, none, w0 + 6, x, 64);
                assert(none + weighted_bits(w0 + 6, 64) =~= weighted_bits(w0 + 6, 64));
                lemma_low_bits(x);
                lemma_eval_unit(t, private(w0));
                assert(t.witness[w0 as int] == values[0]);
                lemma_times_one(t.eval(weighted_bits(w0 + 6, 64)), t.eval(unit(Variable::One)));
            } else if j == 4 {
                let x = gap(amount, 1);
                assert forall|i: int| 0 <= i < 64 implies #[trigger] held(t, w0 + 70, i) == bit(
                    x,
                    i as nat,
                ) by {
                    assert(t.witness[w0 + 70 + i] == values[70 + i]);
                    assert(values[70 + i] == bits(x)[i]);
                }
                lemma_eval_weighted(t, unit(Variable::One), w0 + 70, x, 64);
                lemma_low_bits(x);
                lemma_eval_unit(t, private(w0));
                assert(t.witness[w0 as int] == values[0]);
                lemma_times_one(
                    t.eval(unit(Variable::One) + weighted_bits(w0 + 70, 64)),
                    t.eval(unit(Variable::One)),
                );
            } else {
                let x = gap(limit, amount);
                assert forall|i: int| 0 <= i < 64 implies #[trigger] held(t, w0 + 134, i) == bit(
                    x,
                    i as nat,
                ) by {
                    assert(t.witness[w0 + 134 + i] == values[134 + i]);
                    assert(values[134 + i] == bits(x)[i]);
                }
                lemma_eval_weighted(t, unit(private(w0)), w0 + 134, x, 64);
                lemma_low_bits(x);
                lemma_eval_unit(t, private(w0));
                lemma_eval_unit(t, private(w0 + 2));
                assert(t.witness[w0 as int] == values[0]);
                assert(t.witness[(w0 + 2) as int] == values[2]);
                lemma_times_one(
                    t.eval(unit(private(w0)) + weighted_bits(w0 + 134, 64)),
                    t.eval(unit(Variable::One)),
                );
            }
        }
    }
}

/// A bit is its own square.
proof fn lemma_bit_squared(b: nat)
    requires
        b < 2,
    ensures
        b * b == b,
{
    if b == 0 {
    } else {
        assert(b == 1);
    }
}

/// The public inputs are assigned in the order of the wire format: the
/// values that synthesis gives them are the scalars that the verifier
/// derives from the same `MintPublicInputs`.
pub proof fn lemma_inputs_follow_wire_order(witness: MintWitness, public_inputs: MintPublicInputs)
    ensures
        MintCircuit::spec_from_witness(witness, public_inputs).is_assigned(),
        MintCircuit::spec_from_witness(witness, public_inputs).spec_instance_values()
            == public_inputs.spec_field_elements(),
{
    assert(MintCircuit::spec_from_witness(witness, public_inputs).spec_instance_values()
        =~= public_inputs.spec_field_elements());
}

/// What the prover is handed for a mint that stands in the mint relation:
/// every variable has its value, every constraint holds, and the public
/// inputs are the constant one and then the scalars of the wire format, in
/// its order.
pub proof fn lemma_mint_synthesizes(witness: MintWitness, public_inputs: MintPublicInputs)
    requires
        mint_relation(witness, public_inputs),
    ensures
        ({
            let circuit = MintCircuit::spec_from_witness(witness, public_inputs);
            let system = circuit.synthesized(SystemState::fresh(false));
            &&& circuit.is_assigned()
            &&& system.assigned()
            &&& system.closed()
            &&& system.satisfied()
            &&& system.instance == seq![1nat] + public_inputs.spec_field_elements()
            &&& system.num_instance == 1 + PUBLIC_INPUT_COUNT
            &&& system.num_witness == WITNESS_COUNT
            &&& system.constraints.len() == CONSTRAINT_COUNT
        }),
{
    let circuit = MintCircuit::spec_from_witness(witness, public_inputs);
    lemma_inputs_follow_wire_order(witness, public_inputs);
    lemma_synthesis_closed(circuit, SystemState::fresh(false));
    lemma_relation_satisfiable(circuit, SystemState::fresh(false));
}

/// A mint that the relation does not hold of cannot satisfy the system:
/// with an amount of zero, an amount above the limit, or a public digest
/// that is, as a scalar, not the digest of what it binds, the system that
/// synthesis makes is not satisfied.
pub proof fn lemma_broken_mint_unsatisfied(circuit: MintCircuit, s: SystemState)
    requires
        circuit.is_assigned(),
        s.assigned(),
        s.num_instance + 6 <= usize::MAX,
        s.num_witness + 198 <= usize::MAX,
        circuit.amount->0 == 0 || circuit.amount->0 > circuit.daily_limit->0 || reduced(
            circuit.authority_hash->0,
        ) != scalar_of(sha256((circuit.pubkey->0)@)) || reduced(circuit.limit_hash->0)
            != scalar_of(sha256(limit_preimage(circuit.daily_limit->0))),
    ensures
        !circuit.synthesized(s).satisfied(),
{
    if circuit.synthesized(s).satisfied() {
        lemma_relation_enforces(circuit, s);
    }
}

} // verus!
