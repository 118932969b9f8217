//! A rank-1 constraint system: variables, their values, and constraints.
//!
//! The system itself is `ark_relations::r1cs::ConstraintSystem` over the
//! scalar field of BN254. Verus cannot look into it, so this module
//! describes what it holds by `SystemState` and states of each call what
//! the call does to that state. Those statements are taken on trust; the
//! relation that fills the system is verified against them.

use crate::error::ZkpError;
use crate::field::{fr_modulus, FieldElement};
use ark_ff::PrimeField;
use vstd::prelude::*;

verus! {

/// A variable of a constraint system.
#[derive(Clone, Copy, Debug, PartialEq, Eq)]
pub enum Variable {
    /// The constant one.
    One,
    /// The public input with this index. Index 0 is the constant one.
    Instance(usize),
    /// The private variable with this index.
    Witness(usize),
}

/// A variable with the scalar that it is multiplied by.
#[derive(Clone, Copy, Debug, PartialEq, Eq)]
pub struct Term {
    pub coefficient: FieldElement,
    pub variable: Variable,
}

/// The constraint `a * b = c` between three linear combinations, each the
/// sum of its terms.
#[derive(Clone, Debug, PartialEq, Eq)]
pub struct Constraint {
    pub a: Vec<Term>,
    pub b: Vec<Term>,
    pub c: Vec<Term>,
}

/// A term as contracts speak of it: the coefficient as a number.
pub struct SpecTerm {
    pub coefficient: nat,
    pub variable: Variable,
}

/// A constraint as contracts speak of it.
#[verifier::ext_equal]
pub struct SpecConstraint {
    pub a: Seq<SpecTerm>,
    pub b: Seq<SpecTerm>,
    pub c: Seq<SpecTerm>,
}

impl View for Term {
    type V = SpecTerm;

    open spec fn view(&self) -> SpecTerm {
        SpecTerm { coefficient: self.coefficient@, variable: self.variable }
    }
}

/// The terms of a linear combination as contracts speak of them.
pub open spec fn terms_view(terms: Seq<Term>) -> Seq<SpecTerm> {
    terms.map_values(|t: Term| t@)
}

impl View for Constraint {
    type V = SpecConstraint;

    open spec fn view(&self) -> SpecConstraint {
        SpecConstraint {
            a: terms_view(self.a@),
            b: terms_view(self.b@),
            c: terms_view(self.c@),
        }
    }
}

/// The constraints of a vector as contracts speak of them.
pub open spec fn constraints_view(constraints: Seq<Constraint>) -> Seq<SpecConstraint> {
    constraints.map_values(|c: Constraint| c@)
}

/// What a constraint system holds.
#[verifier::ext_equal]
pub struct SystemState {
    /// Whether the system only records its shape, for key generation.
    pub setup: bool,
    /// The number of public inputs allocated, the constant one included.
    pub num_instance: nat,
    /// The number of private variables allocated.
    pub num_witness: nat,
    /// The values of the public inputs, the constant one first.
    pub instance: Seq<nat>,
    /// The values of the private variables.
    pub witness: Seq<nat>,
    /// The constraints, in the order in which they were enforced.
    pub constraints: Seq<SpecConstraint>,
}

impl SystemState {
    /// A system into which nothing was put yet.
    pub open spec fn fresh(setup: bool) -> SystemState {
        SystemState {
            setup,
            num_instance: 1,
            num_witness: 0,
            instance: seq![1nat],
            witness: Seq::empty(),
            constraints: Seq::empty(),
        }
    }

    /// Whether `v` was allocated.
    pub open spec fn allocated(&self, v: Variable) -> bool {
        match v {
            Variable::One => true,
            Variable::Instance(i) => i < self.num_instance,
            Variable::Witness(i) => i < self.num_witness,
        }
    }

    /// Whether every variable has its value.
    pub open spec fn assigned(&self) -> bool {
        &&& !self.setup
        &&& self.instance.len() == self.num_instance
        &&& self.witness.len() == self.num_witness
        &&& self.num_instance >= 1
    }

    /// Whether every variable of a linear combination was allocated.
    pub open spec fn covers(&self, terms: Seq<SpecTerm>) -> bool {
        forall|j: int| 0 <= j < terms.len() ==> self.allocated(#[trigger] terms[j].variable)
    }

    /// Whether every constraint speaks of allocated variables only.
    pub open spec fn closed(&self) -> bool {
        forall|k: int|
            0 <= k < self.constraints.len() ==> {
                &&& self.covers(#[trigger] self.constraints[k].a)
                &&& self.covers(self.constraints[k].b)
                &&& self.covers(self.constraints[k].c)
            }
    }

    /// The value of a variable.
    pub open spec fn value(&self, v: Variable) -> nat {
        match v {
            Variable::One => 1,
            Variable::Instance(i) => self.instance[i as int],
            Variable::Witness(i) => self.witness[i as int],
        }
    }

    /// The value of a linear combination: the sum of its terms, each the
    /// coefficient times the value of the variable.
    pub open spec fn eval(&self, terms: Seq<SpecTerm>) -> nat
        decreases terms.len(),
    {
        if terms.len() == 0 {
            0
        } else {
            self.eval(terms.drop_last()) + terms.last().coefficient * self.value(
                terms.last().variable,
            )
        }
    }

    /// Whether the values satisfy the constraint, in the scalar field.
    pub open spec fn holds(&self, constraint: SpecConstraint) -> bool {
        (self.eval(constraint.a) * self.eval(constraint.b)) % fr_modulus() == self.eval(
            constraint.c,
        ) % fr_modulus()
    }

    /// Whether the values satisfy every constraint.
    pub open spec fn satisfied(&self) -> bool {
        forall|k: int| 0 <= k < self.constraints.len() ==> self.holds(#[trigger] self.constraints[k])
    }

    /// The state after one more public input.
    pub open spec fn with_input(&self, value: Option<FieldElement>) -> SystemState {
        SystemState {
            num_instance: self.num_instance + 1,
            instance: if !self.setup && value is Some {
                self.instance.push(value->0@)
            } else {
                self.instance
            },
            ..*self
        }
    }

    /// The state after one more private variable.
    pub open spec fn with_witness(&self, value: Option<FieldElement>) -> SystemState {
        SystemState {
            num_witness: self.num_witness + 1,
            witness: if !self.setup && value is Some {
                self.witness.push(value->0@)
            } else {
                self.witness
            },
            ..*self
        }
    }

    /// The state after one more constraint.
    pub open spec fn with_constraint(&self, constraint: SpecConstraint) -> SystemState {
        SystemState { constraints: self.constraints.push(constraint), ..*self }
    }
}

/// A constraint system under construction.
#[verifier::external_body]
pub struct ConstraintSystem {
    pub(crate) inner: ark_relations::r1cs::ConstraintSystem<ark_bn254::Fr>,
}

/// What `system` holds.
pub uninterp spec fn system_state(system: ConstraintSystem) -> SystemState;

impl View for ConstraintSystem {
    type V = SystemState;

    open spec fn view(&self) -> SystemState {
        system_state(*self)
    }
}

impl ConstraintSystem {
    /// An empty system. With `setup` it records only its shape, as key
    /// generation needs it; without, it records values too.
    pub fn new(setup: bool) -> (system: ConstraintSystem)
        ensures
            system@ == SystemState::fresh(setup),
    {
        if setup {
            empty_setup_system()
        } else {
            empty_proving_system()
        }
    }

    /// The number of public inputs allocated, the constant one included.
    pub fn num_instance_variables(&self) -> (n: usize)
        ensures
            n == self@.num_instance,
    {
        instance_count(self)
    }

    /// The number of private variables allocated.
    pub fn num_witness_variables(&self) -> (n: usize)
        ensures
            n == self@.num_witness,
    {
        witness_count(self)
    }

    /// The number of constraints enforced.
    pub fn num_constraints(&self) -> (n: usize)
        ensures
            n == self@.constraints.len(),
    {
        constraint_count(self)
    }

    /// Allocates the next public input. While proving it needs a value.
    pub fn new_input_variable(&mut self, value: Option<FieldElement>) -> (result: Result<
        Variable,
        ZkpError,
    >)
        requires
            old(self)@.num_instance < usize::MAX,
        ensures
            final(self)@ == old(self)@.with_input(value),
            result is Ok <==> old(self)@.setup || value is Some,
            result matches Ok(v) ==> v == Variable::Instance(old(self)@.num_instance as usize),
            result matches Err(e) ==> e is ProvingError,
    {
        let index: usize = instance_count(self);
        match allocate_input(self, value) {
            Ok(()) => Ok(Variable::Instance(index)),
            Err(e) => Err(ZkpError::ProvingError(e.to_string())),
        }
    }

    /// Allocates the next private variable. While proving it needs a value.
    pub fn new_witness_variable(&mut self, value: Option<FieldElement>) -> (result: Result<
        Variable,
        ZkpError,
    >)
        requires
            old(self)@.num_witness < usize::MAX,
        ensures
            final(self)@ == old(self)@.with_witness(value),
            result is Ok <==> old(self)@.setup || value is Some,
            result matches Ok(v) ==> v == Variable::Witness(old(self)@.num_witness as usize),
            result matches Err(e) ==> e is ProvingError,
    {
        let index: usize = witness_count(self);
        match allocate_witness(self, value) {
            Ok(()) => Ok(Variable::Witness(index)),
            Err(e) => Err(ZkpError::ProvingError(e.to_string())),
        }
    }

    /// Enforces `a * b = c`.
    pub fn enforce_constraint(&mut self, constraint: &Constraint) -> (result: Result<(), ZkpError>)
        requires
            old(self)@.constraints.len() < usize::MAX,
        ensures
            final(self)@ == old(self)@.with_constraint(constraint@),
            result is Ok,
    {
        match enforce_product(self, &constraint.a, &constraint.b, &constraint.c) {
            Ok(()) => Ok(()),
            Err(e) => Err(ZkpError::ProvingError(e.to_string())),
        }
    }

    /// Whether the values in the system satisfy its constraints. `None` is
    /// the answer of a system that holds no values, or too few.
    pub fn is_satisfied(&self) -> (satisfied: Option<bool>)
        ensures
            self@.assigned() && self@.closed() ==> satisfied == Some(self@.satisfied()),
            self@.setup ==> satisfied is None,
    {
        match check_satisfied(self) {
            Ok(satisfied) => Some(satisfied),
            Err(_) => None,
        }
    }
}

/// `ConstraintSystem::new`: an empty system in proving mode, which records
/// values as well as constraints. Its only public input is the constant
/// one, with the value 1.
#[verifier::external_body]
fn empty_proving_system() -> (system: ConstraintSystem)
    ensures
        system_state(system) == SystemState::fresh(false),
{
    ConstraintSystem { inner: ark_relations::r1cs::ConstraintSystem::new() }
}

/// `ConstraintSystem::new`, then `set_mode` with `SynthesisMode::Setup`: an
/// empty system that records its shape and no values beyond the constant.
#[verifier::external_body]
fn empty_setup_system() -> (system: ConstraintSystem)
    ensures
        system_state(system) == SystemState::fresh(true),
{
    let mut inner = ark_relations::r1cs::ConstraintSystem::new();
    inner.set_mode(ark_relations::r1cs::SynthesisMode::Setup);
    ConstraintSystem { inner }
}

/// The field `num_instance_variables`.
#[verifier::external_body]
fn instance_count(system: &ConstraintSystem) -> (n: usize)
    ensures
        n == system_state(*system).num_instance,
{
    system.inner.num_instance_variables
}

/// The field `num_witness_variables`.
#[verifier::external_body]
fn witness_count(system: &ConstraintSystem) -> (n: usize)
    ensures
        n == system_state(*system).num_witness,
{
    system.inner.num_witness_variables
}

/// The field `num_constraints`.
#[verifier::external_body]
fn constraint_count(system: &ConstraintSystem) -> (n: usize)
    ensures
        n == system_state(*system).constraints.len(),
{
    system.inner.num_constraints
}

/// `ConstraintSystem::new_input_variable`. It counts the variable first.
/// In setup mode it is then done; otherwise it asks for the value, fails
/// with `AssignmentMissing` if there is none, and else appends the value to
/// the instance assignment.
#[verifier::external_body]
fn allocate_input(system: &mut ConstraintSystem, value: Option<FieldElement>) -> (result: Result<
    (),
    ark_relations::r1cs::SynthesisError,
>)
    requires
        system_state(*old(system)).num_instance < usize::MAX,
    ensures
        system_state(*final(system)) == system_state(*old(system)).with_input(value),
        result is Ok <==> system_state(*old(system)).setup || value is Some,
{
    let scalar = value.map(|v| ark_bn254::Fr::from_le_bytes_mod_order(&v.to_le_bytes()));
    system.inner.new_input_variable(
        || scalar.ok_or(ark_relations::r1cs::SynthesisError::AssignmentMissing),
    ).map(|_| ())
}

/// `ConstraintSystem::new_witness_variable`. It counts the variable first.
/// In setup mode it is then done; otherwise it asks for the value, fails
/// with `AssignmentMissing` if there is none, and else appends the value to
/// the witness assignment.
#[verifier::external_body]
fn allocate_witness(system: &mut ConstraintSystem, value: Option<FieldElement>) -> (result: Result<
    (),
    ark_relations::r1cs::SynthesisError,
>)
    requires
        system_state(*old(system)).num_witness < usize::MAX,
    ensures
        system_state(*final(system)) == system_state(*old(system)).with_witness(value),
        result is Ok <==> system_state(*old(system)).setup || value is Some,
{
    let scalar = value.map(|v| ark_bn254::Fr::from_le_bytes_mod_order(&v.to_le_bytes()));
    system.inner.new_witness_variable(
        || scalar.ok_or(ark_relations::r1cs::SynthesisError::AssignmentMissing),
    ).map(|_| ())
}

/// `ConstraintSystem::enforce_constraint`. Each linear combination is built
/// from its terms as they stand. The call records the constraint and
/// returns `Ok`.
#[verifier::external_body]
fn enforce_product(system: &mut ConstraintSystem, a: &Vec<Term>, b: &Vec<Term>, c: &Vec<Term>) -> (result:
    Result<(), ark_relations::r1cs::SynthesisError>)
    requires
        system_state(*old(system)).constraints.len() < usize::MAX,
    ensures
        system_state(*final(system)) == system_state(*old(system)).with_constraint(
            SpecConstraint { a: terms_view(a@), b: terms_view(b@), c: terms_view(c@) },
        ),
        result is Ok,
{
    let outside = |terms: &Vec<Term>|
        ark_relations::r1cs::LinearCombination(
            terms.iter().map(
                |t|
                    (
                        ark_bn254::Fr::from_le_bytes_mod_order(&t.coefficient.to_le_bytes()),
                        match t.variable {
                            Variable::One => ark_relations::r1cs::Variable::One,
                            Variable::Instance(i) => ark_relations::r1cs::Variable::Instance(i),
                            Variable::Witness(i) => ark_relations::r1cs::Variable::Witness(i),
                        },
                    ),
            ).collect(),
        );
    system.inner.enforce_constraint(outside(a), outside(b), outside(c))
}

/// `ConstraintSystem::is_satisfied`. In setup mode it fails. Otherwise it
/// evaluates the three linear combinations of each constraint in the field
/// and compares the product of the first two with the third; it fails on a
/// variable without a value.
#[verifier::external_body]
fn check_satisfied(system: &ConstraintSystem) -> (result: Result<
    bool,
    ark_relations::r1cs::SynthesisError,
>)
    ensures
        system_state(*system).assigned() && system_state(*system).closed() ==> result is Ok,
        result matches Ok(satisfied) ==> (system_state(*system).assigned() && system_state(
            *system,
        ).closed() ==> satisfied == system_state(*system).satisfied()),
        system_state(*system).setup ==> result is Err,
{
    system.inner.is_satisfied()
}

} // verus!
