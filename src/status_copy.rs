use vstd::prelude::*;

use crate::errors::{
    InvalidInputBitSize, OpcodeLocation, OpcodeNotSolvable, OpcodeResolutionError,
    RawAssertionPayload, ResolvedAssertionPayload,
};
use crate::expression::Expression;
use crate::field::Field;
use crate::machine::{ACVMStatus, AcirCallWaitInfo, ForeignCallParam, ForeignCallWaitInfo};

verus! {

/// `a` and `b` hold the same values; vectors are compared by their contents.
pub open spec fn same_expression<F>(a: Expression<F>, b: Expression<F>) -> bool {
    a.mul_terms@ == b.mul_terms@ && a.linear_combinations@ == b.linear_combinations@ && a.q_c
        == b.q_c
}

pub open spec fn same_payload<F>(
    a: Option<ResolvedAssertionPayload<F>>,
    b: Option<ResolvedAssertionPayload<F>>,
) -> bool {
    match (a, b) {
        (None, None) => true,
        (Some(ResolvedAssertionPayload::String(x)), Some(ResolvedAssertionPayload::String(y))) => x
            == y,
        (Some(ResolvedAssertionPayload::Raw(x)), Some(ResolvedAssertionPayload::Raw(y))) => x.selector
            == y.selector && x.data@ == y.data@,
        _ => false,
    }
}

pub open spec fn same_error<F>(a: OpcodeResolutionError<F>, b: OpcodeResolutionError<F>) -> bool {
    match (a, b) {
        (OpcodeResolutionError::OpcodeNotSolvable(x), OpcodeResolutionError::OpcodeNotSolvable(y)) => {
            match (x, y) {
                (
                    OpcodeNotSolvable::ExpressionHasTooManyUnknowns(e1),
                    OpcodeNotSolvable::ExpressionHasTooManyUnknowns(e2),
                ) => same_expression(e1, e2),
                (OpcodeNotSolvable::ExpressionHasTooManyUnknowns(_), _) => false,
                (_, OpcodeNotSolvable::ExpressionHasTooManyUnknowns(_)) => false,
                _ => x == y,
            }
        },
        (
            OpcodeResolutionError::UnsatisfiedConstrain { opcode_location: l1, payload: pa },
            OpcodeResolutionError::UnsatisfiedConstrain { opcode_location: l2, payload: pb },
        ) => l1 == l2 && same_payload(pa, pb),
        (
            OpcodeResolutionError::BrilligFunctionFailed {
                function_id: i1,
                call_stack: c1,
                payload: pa,
            },
            OpcodeResolutionError::BrilligFunctionFailed {
                function_id: i2,
                call_stack: c2,
                payload: pb,
            },
        ) => i1 == i2 && c1@ == c2@ && same_payload(pa, pb),
        (OpcodeResolutionError::OpcodeNotSolvable(_), _) => false,
        (OpcodeResolutionError::UnsatisfiedConstrain { .. }, _) => false,
        (OpcodeResolutionError::BrilligFunctionFailed { .. }, _) => false,
        _ => a == b,
    }
}

pub open spec fn same_param<F>(a: ForeignCallParam<F>, b: ForeignCallParam<F>) -> bool {
    match (a, b) {
        (ForeignCallParam::Single(x), ForeignCallParam::Single(y)) => x == y,
        (ForeignCallParam::Array(x), ForeignCallParam::Array(y)) => x@ == y@,
        _ => false,
    }
}

pub open spec fn same_foreign_call<F>(a: ForeignCallWaitInfo<F>, b: ForeignCallWaitInfo<F>) -> bool {
    &&& a.function == b.function
    &&& a.inputs@.len() == b.inputs@.len()
    &&& forall|i: int| 0 <= i < a.inputs@.len() ==> same_param(#[trigger] a.inputs@[i], b.inputs@[i])
}

/// `a` and `b` are the same status.
pub open spec fn same_status<F>(a: ACVMStatus<F>, b: ACVMStatus<F>) -> bool {
    match (a, b) {
        (ACVMStatus::Solved, ACVMStatus::Solved) => true,
        (ACVMStatus::InProgress, ACVMStatus::InProgress) => true,
        (ACVMStatus::Failure(x), ACVMStatus::Failure(y)) => same_error(x, y),
        (ACVMStatus::RequiresForeignCall(x), ACVMStatus::RequiresForeignCall(y)) => same_foreign_call(
            x,
            y,
        ),
        (ACVMStatus::RequiresAcirCall(x), ACVMStatus::RequiresAcirCall(y)) => x.id == y.id
            && x.initial_witness@ == y.initial_witness@,
        _ => false,
    }
}

fn copy_values<T: Copy>(v: &Vec<T>) -> (r: Vec<T>)
    ensures
        r@ == v@,
{
    let mut out: Vec<T> = Vec::new();
    let mut i: usize = 0;
    while i < v.len()
        invariant
            0 <= i <= v@.len(),
            out@ == v@.subrange(0, i as int),
        decreases v@.len() - i,
    {
        out.push(v[i]);
        assert(v@.subrange(0, i + 1) == v@.subrange(0, i as int).push(v@[i as int]));
        i = i + 1;
    }
    assert(v@.subrange(0, v@.len() as int) == v@);
    out
}

fn copy_expression<F: Field>(e: &Expression<F>) -> (r: Expression<F>)
    ensures
        same_expression(r, *e),
{
    Expression {
        mul_terms: copy_values(&e.mul_terms),
        linear_combinations: copy_values(&e.linear_combinations),
        q_c: e.q_c,
    }
}

fn copy_payload<F: Field>(p: &Option<ResolvedAssertionPayload<F>>) -> (r: Option<
    ResolvedAssertionPayload<F>,
>)
    ensures
        same_payload(r, *p),
{
    match p {
        None => None,
        Some(ResolvedAssertionPayload::String(s)) => Some(ResolvedAssertionPayload::String(s.clone())),
        Some(ResolvedAssertionPayload::Raw(raw)) => Some(
            ResolvedAssertionPayload::Raw(
                RawAssertionPayload { selector: raw.selector, data: copy_values(&raw.data) },
            ),
        ),
    }
}

/// A copy of an error.
pub fn copy_error<F: Field>(e: &OpcodeResolutionError<F>) -> (r: OpcodeResolutionError<F>)
    ensures
        same_error(r, *e),
{
    match e {
        OpcodeResolutionError::OpcodeNotSolvable(x) => OpcodeResolutionError::OpcodeNotSolvable(
            match x {
                OpcodeNotSolvable::MissingAssignment(i) => OpcodeNotSolvable::MissingAssignment(*i),
                OpcodeNotSolvable::MissingMemoryBlock(i) => OpcodeNotSolvable::MissingMemoryBlock(*i),
                OpcodeNotSolvable::ExpressionHasTooManyUnknowns(ex) => {
                    OpcodeNotSolvable::ExpressionHasTooManyUnknowns(copy_expression(ex))
                },
            },
        ),
        OpcodeResolutionError::UnsatisfiedConstrain { opcode_location, payload } => {
            OpcodeResolutionError::UnsatisfiedConstrain {
                opcode_location: *opcode_location,
                payload: copy_payload(payload),
            }
        },
        OpcodeResolutionError::IndexOutOfBounds { opcode_location, index, array_size } => {
            OpcodeResolutionError::IndexOutOfBounds {
                opcode_location: *opcode_location,
                index: *index,
                array_size: *array_size,
            }
        },
        OpcodeResolutionError::InvalidInputBitSize { opcode_location, invalid_input_bit_size } => {
            OpcodeResolutionError::InvalidInputBitSize {
                opcode_location: *opcode_location,
                invalid_input_bit_size: InvalidInputBitSize {
                    value: invalid_input_bit_size.value.clone(),
                    value_num_bits: invalid_input_bit_size.value_num_bits,
                    max_bits: invalid_input_bit_size.max_bits,
                },
            }
        },
        OpcodeResolutionError::BlackBoxFunctionFailed(func, reason) => {
            OpcodeResolutionError::BlackBoxFunctionFailed(*func, reason.clone())
        },
        OpcodeResolutionError::BrilligFunctionFailed { function_id, call_stack, payload } => {
            OpcodeResolutionError::BrilligFunctionFailed {
                function_id: *function_id,
                call_stack: copy_values(call_stack),
                payload: copy_payload(payload),
            }
        },
        OpcodeResolutionError::AcirMainCallAttempted { opcode_location } => {
            OpcodeResolutionError::AcirMainCallAttempted { opcode_location: *opcode_location }
        },
        OpcodeResolutionError::AcirCallOutputsMismatch {
            opcode_location,
            results_size,
            outputs_size,
        } => OpcodeResolutionError::AcirCallOutputsMismatch {
            opcode_location: *opcode_location,
            results_size: *results_size,
            outputs_size: *outputs_size,
        },
        OpcodeResolutionError::PredicateLargerThanOne { opcode_location, pred_value } => {
            OpcodeResolutionError::PredicateLargerThanOne {
                opcode_location: *opcode_location,
                pred_value: *pred_value,
            }
        },
    }
}

fn copy_foreign_call<F: Field>(info: &ForeignCallWaitInfo<F>) -> (r: ForeignCallWaitInfo<F>)
    ensures
        same_foreign_call(r, *info),
{
    let mut inputs: Vec<ForeignCallParam<F>> = Vec::new();
    let mut i: usize = 0;
    while i < info.inputs.len()
        invariant
            0 <= i <= info.inputs@.len(),
            inputs@.len() == i,
            forall|k: int| 0 <= k < i ==> same_param(#[trigger] inputs@[k], info.inputs@[k]),
        decreases info.inputs@.len() - i,
    {
        let p = match &info.inputs[i] {
            ForeignCallParam::Single(x) => ForeignCallParam::Single(*x),
            ForeignCallParam::Array(v) => ForeignCallParam::Array(copy_values(v)),
        };
        inputs.push(p);
        i = i + 1;
    }
    ForeignCallWaitInfo { function: info.function.clone(), inputs }
}

impl<F: Field> ACVMStatus<F> {
    /// A copy of the status.
    pub fn copy(&self) -> (r: Self)
        ensures
            same_status(r, *self),
    {
        match self {
            ACVMStatus::Solved => ACVMStatus::Solved,
            ACVMStatus::InProgress => ACVMStatus::InProgress,
            ACVMStatus::Failure(e) => ACVMStatus::Failure(copy_error(e)),
            ACVMStatus::RequiresForeignCall(info) => ACVMStatus::RequiresForeignCall(
                copy_foreign_call(info),
            ),
            ACVMStatus::RequiresAcirCall(info) => ACVMStatus::RequiresAcirCall(
                AcirCallWaitInfo { id: info.id, initial_witness: info.initial_witness.copy() },
            ),
        }
    }
}

} // verus!
