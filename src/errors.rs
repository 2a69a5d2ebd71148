use vstd::prelude::*;

use crate::expression::Expression;

verus! {

/// Position of an opcode: an index into the circuit, or an instruction of
/// an unconstrained call made by the circuit opcode at `acir_index`.
#[derive(Clone, Copy, Debug, PartialEq, Eq, Structural, Hash)]
pub enum OpcodeLocation {
    Acir(usize),
    Brillig { acir_index: usize, brillig_index: usize },
}

/// Points to the opcode that caused an error, once the dispatcher knows it.
#[derive(Clone, Copy, Debug, PartialEq, Eq, Structural)]
pub enum ErrorLocation {
    Unresolved,
    Resolved(OpcodeLocation),
}

/// Selects the type that the data of an assertion payload encodes.
#[derive(Clone, Copy, Debug, PartialEq, Eq, Structural, Hash)]
pub struct ErrorSelector(pub u64);

/// Identifier of an unconstrained function.
#[derive(Clone, Copy, Debug, PartialEq, Eq, Structural, Hash)]
pub struct BrilligFunctionId(pub u32);

/// Identifier of a circuit function; `0` is `main`.
#[derive(Clone, Copy, Debug, PartialEq, Eq, Structural, Hash)]
pub struct AcirFunctionId(pub u32);

/// Identifier of a memory block.
#[derive(Clone, Copy, Debug, PartialEq, Eq, Structural, Hash)]
pub struct BlockId(pub u32);

/// Identifier of a blackbox primitive, as the backend numbers them.
#[derive(Clone, Copy, Debug, PartialEq, Eq, Structural, Hash)]
pub struct BlackBoxFunc(pub u32);

/// Assertion data resolved to field values at failure time.
#[derive(Clone, Debug, PartialEq, Eq)]
pub struct RawAssertionPayload<F> {
    pub selector: ErrorSelector,
    pub data: Vec<F>,
}

/// A resolved assertion payload: a static message or dynamic data.
#[derive(Clone, Debug, PartialEq, Eq)]
pub enum ResolvedAssertionPayload<F> {
    String(String),
    Raw(RawAssertionPayload<F>),
}

/// Why an opcode cannot be solved with the current assignment.
#[derive(Clone, Debug, PartialEq, Eq)]
pub enum OpcodeNotSolvable<F> {
    MissingAssignment(u32),
    MissingMemoryBlock(u32),
    ExpressionHasTooManyUnknowns(Expression<F>),
}

/// A witness value wider than its declared bit size.
#[derive(Clone, Debug, PartialEq, Eq)]
pub struct InvalidInputBitSize {
    pub value: String,
    pub value_num_bits: u32,
    pub max_bits: u32,
}

/// An error reported by the blackbox backend.
#[derive(Clone, Debug, PartialEq, Eq)]
pub enum BlackBoxResolutionError {
    Failed(BlackBoxFunc, String),
    AssertFailed(String),
}

#[derive(Clone, Debug, PartialEq, Eq)]
pub enum OpcodeResolutionError<F> {
    OpcodeNotSolvable(OpcodeNotSolvable<F>),
    UnsatisfiedConstrain {
        opcode_location: ErrorLocation,
        payload: Option<ResolvedAssertionPayload<F>>,
    },
    IndexOutOfBounds { opcode_location: ErrorLocation, index: F, array_size: u32 },
    InvalidInputBitSize {
        opcode_location: ErrorLocation,
        invalid_input_bit_size: InvalidInputBitSize,
    },
    BlackBoxFunctionFailed(BlackBoxFunc, String),
    BrilligFunctionFailed {
        function_id: BrilligFunctionId,
        call_stack: Vec<OpcodeLocation>,
        payload: Option<ResolvedAssertionPayload<F>>,
    },
    AcirMainCallAttempted { opcode_location: ErrorLocation },
    AcirCallOutputsMismatch { opcode_location: ErrorLocation, results_size: u32, outputs_size: u32 },
    PredicateLargerThanOne { opcode_location: ErrorLocation, pred_value: F },
}

/// The error that a backend error becomes: a failure keeps the function and
/// reason; a failed assertion becomes an unsatisfied constraint carrying the
/// message, its location still unresolved.
pub open spec fn from_blackbox_error<F>(e: BlackBoxResolutionError) -> OpcodeResolutionError<F> {
    match e {
        BlackBoxResolutionError::Failed(func, reason) => OpcodeResolutionError::BlackBoxFunctionFailed(
            func,
            reason,
        ),
        BlackBoxResolutionError::AssertFailed(msg) => OpcodeResolutionError::UnsatisfiedConstrain {
            opcode_location: ErrorLocation::Unresolved,
            payload: Some(ResolvedAssertionPayload::String(msg)),
        },
    }
}

impl<F> From<BlackBoxResolutionError> for OpcodeResolutionError<F> {
    fn from(value: BlackBoxResolutionError) -> (r: Self)
        ensures
            r == from_blackbox_error::<F>(value),
    {
        match value {
            BlackBoxResolutionError::Failed(func, reason) => {
                OpcodeResolutionError::BlackBoxFunctionFailed(func, reason)
            },
            BlackBoxResolutionError::AssertFailed(error) => {
                OpcodeResolutionError::UnsatisfiedConstrain {
                    opcode_location: ErrorLocation::Unresolved,
                    payload: Some(ResolvedAssertionPayload::String(error)),
                }
            },
        }
    }
}

impl<F> vstd::std_specs::convert::FromSpecImpl<BlackBoxResolutionError> for OpcodeResolutionError<F> {
    open spec fn obeys_from_spec() -> bool {
        true
    }

    open spec fn from_spec(v: BlackBoxResolutionError) -> Self {
        from_blackbox_error::<F>(v)
    }
}

impl<F> From<InvalidInputBitSize> for OpcodeResolutionError<F> {
    fn from(invalid_input_bit_size: InvalidInputBitSize) -> (r: Self)
        ensures
            r == (OpcodeResolutionError::<F>::InvalidInputBitSize {
                opcode_location: ErrorLocation::Unresolved,
                invalid_input_bit_size,
            }),
    {
        OpcodeResolutionError::InvalidInputBitSize {
            opcode_location: ErrorLocation::Unresolved,
            invalid_input_bit_size,
        }
    }
}

impl<F> vstd::std_specs::convert::FromSpecImpl<InvalidInputBitSize> for OpcodeResolutionError<F> {
    open spec fn obeys_from_spec() -> bool {
        true
    }

    open spec fn from_spec(v: InvalidInputBitSize) -> Self {
        OpcodeResolutionError::InvalidInputBitSize {
            opcode_location: ErrorLocation::Unresolved,
            invalid_input_bit_size: v,
        }
    }
}

impl<F> From<OpcodeNotSolvable<F>> for OpcodeResolutionError<F> {
    fn from(e: OpcodeNotSolvable<F>) -> (r: Self)
        ensures
            r == OpcodeResolutionError::<F>::OpcodeNotSolvable(e),
    {
        OpcodeResolutionError::OpcodeNotSolvable(e)
    }
}

impl<F> vstd::std_specs::convert::FromSpecImpl<OpcodeNotSolvable<F>> for OpcodeResolutionError<F> {
    open spec fn obeys_from_spec() -> bool {
        true
    }

    open spec fn from_spec(v: OpcodeNotSolvable<F>) -> Self {
        OpcodeResolutionError::OpcodeNotSolvable(v)
    }
}

} // verus!
