use vstd::prelude::*;

use crate::native_types::Witness;

verus! {

/// Errors met while reading a program's inputs.
#[derive(Clone, Debug, PartialEq, Eq)]
pub enum InputParserError {
    ParseInputMap(String),
    ParseStr { arg_name: String, value: String, error: String },
    InputUnderflowsMinimum { arg_name: String, value: String, min: String },
    InputOverflowsMaximum { arg_name: String, value: String, max: String },
    InputExceedsFieldModulus { arg_name: String, value: String },
    /// The value, and a description of the ABI type it does not fit.
    AbiTypeMismatch(String, String),
    MissingArgument(String),
}

/// Errors met while encoding or decoding a program's ABI.
#[derive(Clone, Debug, PartialEq, Eq)]
pub enum AbiError {
    UnexpectedParams(Vec<String>),
    /// The parameter's path and a description of the mismatch.
    TypeMismatch { path: String, message: String },
    MissingParam(String),
    MissingParamWitnessValue { name: String, witness_index: Witness },
    InconsistentWitnessAssignment(Witness),
    ReturnTypeMismatch { return_type: String, value: String },
    UnexpectedReturnValue(String),
}

} // verus!
