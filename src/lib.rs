pub mod abi_errors;
pub mod arithmetic;
pub mod errors;
pub mod expression;
pub mod field;
pub mod laws;
pub mod machine;
pub mod memory_op;
pub mod native_types;
pub mod opcodes;
pub mod parser;
pub mod pwg;

pub use arithmetic::{get_value, insert_value, witness_to_value};
pub use machine::{
    AcirCallWaitInfo, BlackBoxFunctionSolver, BrilligSolverStatus, ForeignCallParam,
    ForeignCallResult, ForeignCallWaitInfo, ProfilingSample, StepResult, UnconstrainedVm,
    ACVMStatus, ACVM,
};
pub use pwg::{input_to_value, is_predicate_false};
pub mod status_copy;
