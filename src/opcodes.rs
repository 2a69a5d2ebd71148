use vstd::prelude::*;

use crate::errors::{AcirFunctionId, BlackBoxFunc, BlockId, BrilligFunctionId, ErrorSelector};
use crate::expression::Expression;
use crate::field::Field;
use crate::memory_op::{mem_op_well_formed, MemOp, MemOpKind};
use crate::native_types::Witness;

verus! {

#[derive(Clone, Copy, Debug, PartialEq, Eq)]
pub enum ConstantOrWitnessEnum<F> {
    Constant(F),
    Witness(Witness),
}

/// An input of a blackbox primitive, with its declared bit width.
#[derive(Clone, Copy, Debug, PartialEq, Eq)]
pub struct FunctionInput<F> {
    pub input: ConstantOrWitnessEnum<F>,
    pub num_bits: u32,
}

/// A call of a blackbox primitive.
#[derive(Clone, Debug, PartialEq, Eq)]
pub struct BlackBoxFuncCall<F> {
    pub name: BlackBoxFunc,
    pub inputs: Vec<FunctionInput<F>>,
    pub outputs: Vec<Witness>,
}

/// An input of an unconstrained call: one expression, or every value of a
/// memory block.
#[derive(Clone, Debug, PartialEq, Eq)]
pub enum BrilligInputs<F> {
    Single(Expression<F>),
    MemoryArray(BlockId),
}

#[derive(Clone, Debug, PartialEq, Eq)]
pub enum Opcode<F> {
    AssertZero(Expression<F>),
    BlackBoxFuncCall(BlackBoxFuncCall<F>),
    MemoryInit { block_id: BlockId, init: Vec<Witness> },
    MemoryOp { block_id: BlockId, op: MemOp<F>, predicate: Option<Expression<F>> },
    BrilligCall {
        id: BrilligFunctionId,
        inputs: Vec<BrilligInputs<F>>,
        outputs: Vec<Witness>,
        predicate: Option<Expression<F>>,
    },
    Call {
        id: AcirFunctionId,
        inputs: Vec<Witness>,
        outputs: Vec<Witness>,
        predicate: Option<Expression<F>>,
    },
}

/// An item of an assertion payload.
#[derive(Clone, Debug, PartialEq, Eq)]
pub enum ExpressionOrMemory<F> {
    Expression(Expression<F>),
    Memory(BlockId),
}

/// Assertion metadata attached to an opcode location.
#[derive(Clone, Debug, PartialEq, Eq)]
pub struct AssertionPayload<F> {
    pub error_selector: u64,
    pub payload: Vec<ExpressionOrMemory<F>>,
}

impl ErrorSelector {
    pub fn new(selector: u64) -> (r: Self)
        ensures
            r.0 == selector,
    {
        ErrorSelector(selector)
    }
}

/// An opcode that the machine can run: memory blocks fit their `u32`
/// length and reads name their destination witness.
pub open spec fn opcode_well_formed<F: Field>(op: Opcode<F>) -> bool {
    match op {
        Opcode::MemoryInit { init, .. } => init@.len() <= u32::MAX,
        Opcode::MemoryOp { op, .. } => mem_op_well_formed(op),
        Opcode::Call { inputs, .. } => inputs@.len() <= u32::MAX,
        _ => true,
    }
}

pub open spec fn circuit_well_formed<F: Field>(opcodes: Seq<Opcode<F>>) -> bool {
    forall|i: int| 0 <= i < opcodes.len() ==> opcode_well_formed(#[trigger] opcodes[i])
}

/// Whether an opcode can be run; see `opcode_well_formed`.
pub fn opcode_is_well_formed<F: Field>(op: &Opcode<F>) -> (r: bool)
    ensures
        r == opcode_well_formed(*op),
{
    match op {
        Opcode::MemoryInit { init, .. } => init.len() <= u32::MAX as usize,
        Opcode::MemoryOp { op, .. } => match op.operation {
            MemOpKind::Read => op.value.to_witness().is_some(),
            MemOpKind::Write => true,
        },
        Opcode::Call { inputs, .. } => inputs.len() <= u32::MAX as usize,
        _ => true,
    }
}

/// Whether every opcode of a circuit can be run.
pub fn circuit_is_well_formed<F: Field>(opcodes: &[Opcode<F>]) -> (r: bool)
    ensures
        r == circuit_well_formed(opcodes@),
{
    let mut i: usize = 0;
    while i < opcodes.len()
        invariant
            0 <= i <= opcodes@.len(),
            forall|k: int| 0 <= k < i ==> opcode_well_formed(#[trigger] opcodes@[k]),
        decreases opcodes@.len() - i,
    {
        if !opcode_is_well_formed(&opcodes[i]) {
            return false;
        }
        i = i + 1;
    }
    true
}

} // verus!
