use std::collections::BTreeMap;
use vstd::prelude::*;

use crate::arithmetic::{
    get_value, get_value_spec, reduced_constant, reduces_to_const, unsatisfied, witness_to_value,
};
use crate::arithmetic::{
    is_reduction, one_unknown, only_constant, solve as solve_expression, solved_assignment,
};
use crate::memory_op::{all_assigned, memory_op_outcome, MemOp};
use crate::expression::Expression;
use crate::pwg::{
    input_to_value, input_value_ok, insert_outputs, is_predicate_false, outputs_insertable, predicate_false_spec,
    with_outputs, zeros,
};
use crate::opcodes::{BlackBoxFuncCall, BrilligInputs, FunctionInput};
use crate::status_copy::same_status;
use crate::errors::{
    AcirFunctionId, BlackBoxFunc, BlackBoxResolutionError, BrilligFunctionId, ErrorLocation,
    ErrorSelector, OpcodeLocation, OpcodeNotSolvable, OpcodeResolutionError,
    RawAssertionPayload, ResolvedAssertionPayload,
};
use crate::field::Field;
use crate::memory_op::MemoryOpSolver;
use crate::native_types::{Witness, WitnessMap};
use crate::opcodes::{circuit_well_formed, AssertionPayload, ExpressionOrMemory, Opcode};

verus! {

broadcast use vstd::laws_cmp::group_laws_cmp;

/// A value handed to or returned from a foreign call.
#[derive(Clone, Debug, PartialEq, Eq)]
pub enum ForeignCallParam<F> {
    Single(F),
    Array(Vec<F>),
}

/// A foreign call that an unconstrained function waits on.
#[derive(Clone, Debug, PartialEq, Eq)]
pub struct ForeignCallWaitInfo<F> {
    pub function: String,
    pub inputs: Vec<ForeignCallParam<F>>,
}

/// The host's answer to a foreign call.
#[derive(Clone, Debug, PartialEq, Eq)]
pub struct ForeignCallResult<F> {
    pub values: Vec<ForeignCallParam<F>>,
}

/// A circuit call that the host must run in a separate machine.
#[derive(Clone, Debug, PartialEq, Eq)]
pub struct AcirCallWaitInfo<F> {
    pub id: AcirFunctionId,
    pub initial_witness: WitnessMap<F>,
}

#[derive(Clone, Debug, PartialEq, Eq)]
pub enum ACVMStatus<F> {
    Solved,
    InProgress,
    Failure(OpcodeResolutionError<F>),
    RequiresForeignCall(ForeignCallWaitInfo<F>),
    RequiresAcirCall(AcirCallWaitInfo<F>),
}

impl<F> ACVMStatus<F> {
    pub fn is_in_progress(&self) -> (r: bool)
        ensures
            r == (*self is InProgress),
    {
        match self {
            ACVMStatus::InProgress => true,
            _ => false,
        }
    }

    pub fn is_solved(&self) -> (r: bool)
        ensures
            r == (*self is Solved),
    {
        match self {
            ACVMStatus::Solved => true,
            _ => false,
        }
    }

    /// A short description of the status.
    pub fn to_string(&self) -> (r: String)
        ensures
            r@ == status_text(*self),
    {
        match self {
            ACVMStatus::Solved => "Solved".to_owned(),
            ACVMStatus::InProgress => "In progress".to_owned(),
            ACVMStatus::Failure(_) => "Execution failure".to_owned(),
            ACVMStatus::RequiresForeignCall(_) => "Waiting on foreign call".to_owned(),
            ACVMStatus::RequiresAcirCall(_) => "Waiting on acir call".to_owned(),
        }
    }
}

/// The description of a status.
pub open spec fn status_text<F>(s: ACVMStatus<F>) -> Seq<char> {
    match s {
        ACVMStatus::Solved => "Solved"@,
        ACVMStatus::InProgress => "In progress"@,
        ACVMStatus::Failure(_) => "Execution failure"@,
        ACVMStatus::RequiresForeignCall(_) => "Waiting on foreign call"@,
        ACVMStatus::RequiresAcirCall(_) => "Waiting on acir call"@,
    }
}

/// One profiling sample: the call stack of an unconstrained call.
pub struct ProfilingSample {
    pub call_stack: Vec<OpcodeLocation>,
    pub brillig_function_id: Option<BrilligFunctionId>,
}

/// Maps branches of unconstrained code to fuzzing features.
pub struct BranchToFeatureMap {
    pub entries: Vec<(usize, usize, usize)>,
}

/// Where the blackbox primitives are computed.
pub trait BlackBoxFunctionSolver<F> {
    fn pedantic_solving(&self) -> bool;

    fn solve_black_box(&self, func: BlackBoxFunc, inputs: &Vec<F>) -> Result<
        Vec<F>,
        BlackBoxResolutionError,
    >;
}

/// Result of running an unconstrained function until it halts.
pub enum BrilligSolverStatus<F> {
    Finished,
    InProgress,
    ForeignCallWait(ForeignCallWaitInfo<F>),
}

/// The interpreter of unconstrained functions; `S` is the state of one
/// call, which can be suspended on a foreign call and resumed.
pub trait UnconstrainedVm<F, S> {
    /// Starts a call of function `function_id` on the given input values.
    fn new_call(
        &self,
        function_id: BrilligFunctionId,
        inputs: Vec<F>,
        acir_index: usize,
        profiling_active: bool,
        branch_to_feature_map: Option<&BranchToFeatureMap>,
    ) -> S;

    /// Runs the call until it finishes, fails or waits on a foreign call.
    fn solve(&self, solver: &mut S) -> Result<BrilligSolverStatus<F>, OpcodeResolutionError<F>>;

    fn resolve_pending_foreign_call(&self, solver: &mut S, result: ForeignCallResult<F>);

    /// The values that a finished call returns, in output order.
    fn return_values(&self, solver: &S) -> Vec<F>;

    /// For each profiling sample, the instruction indices of its call stack.
    fn profiling_call_stacks(&self, solver: &S) -> Vec<Vec<usize>>;

    /// Branch coverage of the last execution.
    fn fuzzing_trace(&self, solver: &S) -> Vec<u32>;
}

/// What an assertion payload's items resolve to: `None` when an expression
/// is not yet constant or a memory block does not exist.
pub open spec fn payload_data<F: Field>(
    items: Seq<ExpressionOrMemory<F>>,
    w: Map<u32, F>,
    blocks: Map<u32, Seq<F>>,
) -> Option<Seq<F>>
    decreases items.len(),
{
    if items.len() == 0 {
        Some(seq![])
    } else {
        match payload_data(items.drop_last(), w, blocks) {
            None => None,
            Some(prev) => match items.last() {
                ExpressionOrMemory::Expression(e) => if reduces_to_const(e, w) {
                    Some(prev.push(reduced_constant(e, w)))
                } else {
                    None
                },
                ExpressionOrMemory::Memory(b) => if blocks.contains_key(b.0) {
                    Some(prev + blocks[b.0])
                } else {
                    None
                },
            },
        }
    }
}

/// Index of the first entry of `table` at `loc`.
pub open spec fn find_payload<F>(table: Seq<(OpcodeLocation, AssertionPayload<F>)>, loc: OpcodeLocation) -> Option<int>
    decreases table.len(),
{
    if table.len() == 0 {
        None
    } else if table[0].0 == loc {
        Some(0)
    } else {
        match find_payload(table.drop_first(), loc) {
            None => None,
            Some(i) => Some(i + 1),
        }
    }
}

/// The selector and data of the payload resolved at `loc`.
pub open spec fn expected_payload<F: Field>(
    table: Seq<(OpcodeLocation, AssertionPayload<F>)>,
    loc: OpcodeLocation,
    w: Map<u32, F>,
    blocks: Map<u32, Seq<F>>,
) -> Option<(ErrorSelector, Seq<F>)> {
    match find_payload(table, loc) {
        None => None,
        Some(i) => match payload_data(table[i].1.payload@, w, blocks) {
            None => None,
            Some(d) => Some((ErrorSelector(table[i].1.error_selector), d)),
        },
    }
}

/// `p` is the raw payload that `expected` describes.
pub open spec fn payload_matches<F>(
    p: Option<ResolvedAssertionPayload<F>>,
    expected: Option<(ErrorSelector, Seq<F>)>,
) -> bool {
    match expected {
        None => p is None,
        Some((sel, data)) => match p {
            Some(ResolvedAssertionPayload::Raw(raw)) => raw.selector == sel && raw.data@ == data,
            _ => false,
        },
    }
}

/// `out` is `e` with its location resolved to `loc` where it is one of the
/// three located kinds, the assertion payload replaced by one matching
/// `payload`; any other error is unchanged.
pub open spec fn is_localized<F>(
    e: OpcodeResolutionError<F>,
    out: OpcodeResolutionError<F>,
    loc: OpcodeLocation,
    payload: Option<(ErrorSelector, Seq<F>)>,
) -> bool {
    match e {
        OpcodeResolutionError::IndexOutOfBounds { index, array_size, .. } => out
            == OpcodeResolutionError::<F>::IndexOutOfBounds {
            opcode_location: ErrorLocation::Resolved(loc),
            index,
            array_size,
        },
        OpcodeResolutionError::InvalidInputBitSize { invalid_input_bit_size, .. } => out
            == OpcodeResolutionError::<F>::InvalidInputBitSize {
            opcode_location: ErrorLocation::Resolved(loc),
            invalid_input_bit_size,
        },
        OpcodeResolutionError::UnsatisfiedConstrain { .. } => match out {
            OpcodeResolutionError::UnsatisfiedConstrain { opcode_location, payload: p } => opcode_location
                == ErrorLocation::Resolved(loc) && payload_matches(p, payload),
            _ => false,
        },
        _ => out == e,
    }
}

pub struct ACVM<'a, F, B, V, S> {
    status: ACVMStatus<F>,
    backend: &'a B,
    pedantic_solving: bool,
    block_solvers: BTreeMap<u32, MemoryOpSolver<F>>,
    opcodes: &'a [Opcode<F>],
    instruction_pointer: usize,
    witness_map: WitnessMap<F>,
    brillig_solver: Option<S>,
    acir_call_counter: usize,
    acir_call_results: Vec<Vec<F>>,
    unconstrained_functions: &'a V,
    assertion_payloads: &'a [(OpcodeLocation, AssertionPayload<F>)],
    profiling_active: bool,
    profiling_samples: Vec<ProfilingSample>,
    brillig_fuzzing_active: bool,
    brillig_branch_to_feature_map: Option<&'a BranchToFeatureMap>,
    brillig_fuzzing_trace: Option<Vec<u32>>,
    /// The indices of the opcodes solved so far, in the order they were solved.
    solved_opcodes: Ghost<Seq<int>>,
}

impl<'a, F: Field, B: BlackBoxFunctionSolver<F>, V: UnconstrainedVm<F, S>, S> ACVM<'a, F, B, V, S> {
    pub closed spec fn status_spec(&self) -> ACVMStatus<F> {
        self.status
    }

    pub closed spec fn witness(&self) -> Map<u32, F> {
        self.witness_map@
    }

    pub closed spec fn ip(&self) -> int {
        self.instruction_pointer as int
    }

    pub closed spec fn opcode_seq(&self) -> Seq<Opcode<F>> {
        self.opcodes@
    }

    pub closed spec fn payload_table(&self) -> Seq<(OpcodeLocation, AssertionPayload<F>)> {
        self.assertion_payloads@
    }

    /// The values of each memory block, by block id.
    pub closed spec fn blocks(&self) -> Map<u32, Seq<F>> {
        self.block_solvers@.map_values(|s: MemoryOpSolver<F>| s.block_value@)
    }

    pub closed spec fn call_counter(&self) -> int {
        self.acir_call_counter as int
    }

    pub closed spec fn call_results(&self) -> Seq<Seq<F>> {
        self.acir_call_results@.map_values(|r: Vec<F>| r@)
    }

    pub closed spec fn has_suspended_call(&self) -> bool {
        self.brillig_solver is Some
    }

    /// The indices of the opcodes solved so far, in the order they were solved.
    pub closed spec fn solved_log(&self) -> Seq<int> {
        self.solved_opcodes@
    }

    pub closed spec fn wf(&self) -> bool {
        &&& circuit_well_formed(self.opcodes@)
        &&& self.instruction_pointer <= self.opcodes@.len()
        &&& (self.status is InProgress ==> self.instruction_pointer < self.opcodes@.len())
        &&& (self.status is RequiresForeignCall ==> self.instruction_pointer < self.opcodes@.len())
        &&& (self.status is RequiresAcirCall ==> self.instruction_pointer < self.opcodes@.len())
        &&& (self.status is Solved ==> self.instruction_pointer == self.opcodes@.len())
        &&& (self.instruction_pointer == self.opcodes@.len() ==> self.status is Solved)
        &&& (self.status is Failure ==> located_at(self.status->Failure_0, self.instruction_pointer as int))
        &&& (self.status is RequiresForeignCall ==> self.brillig_solver is Some)
        &&& (self.status is RequiresAcirCall ==> self.acir_call_counter
            == self.acir_call_results@.len())
        &&& self.acir_call_counter <= self.acir_call_results@.len()
        &&& forall|b: u32| #[trigger]
            self.block_solvers@.contains_key(b) ==> self.block_solvers@[b].wf()
        &&& self.solved_opcodes@ == Seq::new(self.instruction_pointer as nat, |i: int| i)
    }

    pub fn new(
        backend: &'a B,
        opcodes: &'a [Opcode<F>],
        initial_witness: WitnessMap<F>,
        unconstrained_functions: &'a V,
        assertion_payloads: &'a [(OpcodeLocation, AssertionPayload<F>)],
    ) -> (r: Self)
        requires
            circuit_well_formed(opcodes@),
        ensures
            r.wf(),
            r.status_spec() == (if opcodes@.len() == 0 {
                ACVMStatus::<F>::Solved
            } else {
                ACVMStatus::<F>::InProgress
            }),
            r.witness() == initial_witness@,
            r.ip() == 0,
            r.opcode_seq() == opcodes@,
            r.payload_table() == assertion_payloads@,
            r.blocks() == Map::<u32, Seq<F>>::empty(),
            r.call_counter() == 0,
            r.call_results().len() == 0,
            !r.has_suspended_call(),
            r.samples().len() == 0,
            !r.is_profiling(),
            !r.is_fuzzing(),
            r.fuzzing_trace_spec() is None,
    {
        let status = if opcodes.len() == 0 {
            ACVMStatus::Solved
        } else {
            ACVMStatus::InProgress
        };
        let pedantic_solving = backend.pedantic_solving();
        let r = ACVM {
            status,
            backend,
            pedantic_solving,
            block_solvers: BTreeMap::new(),
            opcodes,
            instruction_pointer: 0,
            witness_map: initial_witness,
            brillig_solver: None,
            acir_call_counter: 0,
            acir_call_results: Vec::new(),
            unconstrained_functions,
            assertion_payloads,
            profiling_active: false,
            profiling_samples: Vec::new(),
            brillig_fuzzing_active: false,
            brillig_branch_to_feature_map: None,
            brillig_fuzzing_trace: None,
            solved_opcodes: Ghost(Seq::empty()),
        };
        assert(r.blocks() =~= Map::<u32, Seq<F>>::empty());
        assert(r.solved_opcodes@ =~= Seq::new(0, |i: int| i));
        r
    }
}

proof fn lemma_find_payload<F>(table: Seq<(OpcodeLocation, AssertionPayload<F>)>, loc: OpcodeLocation, i: int)
    requires
        0 <= i <= table.len(),
        forall|k: int| 0 <= k < i ==> (#[trigger] table[k]).0 != loc,
    ensures
        i < table.len() && table[i].0 == loc ==> find_payload(table, loc) == Some(i),
        i == table.len() ==> find_payload(table, loc) is None,
    decreases i,
{
    if i > 0 {
        let t = table.drop_first();
        assert forall|k: int| 0 <= k < i - 1 implies (#[trigger] t[k]).0 != loc by {
            assert(t[k] == table[k + 1]);
        }
        lemma_find_payload(t, loc, i - 1);
        assert(table[0].0 != loc);
    }
}

proof fn lemma_payload_prefix_none<F: Field>(
    items: Seq<ExpressionOrMemory<F>>,
    w: Map<u32, F>,
    blocks: Map<u32, Seq<F>>,
    j: int,
)
    requires
        0 <= j <= items.len(),
        payload_data(items.subrange(0, j), w, blocks) is None,
    ensures
        payload_data(items, w, blocks) is None,
    decreases items.len(),
{
    if j < items.len() {
        assert(items.drop_last().subrange(0, j) == items.subrange(0, j));
        lemma_payload_prefix_none(items.drop_last(), w, blocks, j);
    } else {
        assert(items.subrange(0, j) == items);
    }
}

impl<'a, F: Field, B: BlackBoxFunctionSolver<F>, V: UnconstrainedVm<F, S>, S> ACVM<'a, F, B, V, S> {
    /// Resolves the assertion payload recorded for `location`, if any: the
    /// first entry of the table at that location, with each expression
    /// item reduced to its value and each memory item expanded to the
    /// block's values. `None` when an item cannot be resolved yet.
    fn extract_assertion_payload(&self, location: OpcodeLocation) -> (r: Option<
        ResolvedAssertionPayload<F>,
    >)
        requires
            self.wf(),
        ensures
            payload_matches(
                r,
                expected_payload(self.payload_table(), location, self.witness(), self.blocks()),
            ),
    {
        let table = self.assertion_payloads;
        let n = table.len();
        let mut i: usize = 0;
        while i < n
            invariant
                n == table@.len(),
                0 <= i <= n,
                forall|k: int| 0 <= k < i ==> (#[trigger] table@[k]).0 != location,
            ensures
                0 <= i <= n,
                i < n ==> table@[i as int].0 == location,
                forall|k: int| 0 <= k < i ==> (#[trigger] table@[k]).0 != location,
            decreases n - i,
        {
            if table[i].0 == location {
                break;
            }
            i = i + 1;
        }
        proof {
            lemma_find_payload(table@, location, i as int);
        }
        if i == n {
            return None;
        }
        let descriptor = &table[i].1;
        let items = &descriptor.payload;
        let m = items.len();
        let mut fields: Vec<F> = Vec::new();
        let mut j: usize = 0;
        while j < m
            invariant
                m == items@.len(),
                0 <= j <= m,
                self.wf(),
                n == table@.len(),
                i < n,
                table@ == self.payload_table(),
                find_payload(table@, location) == Some(i as int),
                items@ == table@[i as int].1.payload@,
                descriptor == table@[i as int].1,
                payload_data(items@.subrange(0, j as int), self.witness(), self.blocks())
                    == Some(fields@),
            decreases m - j,
        {
            assert(items@.subrange(0, j + 1).drop_last() == items@.subrange(0, j as int));
            match &items[j] {
                ExpressionOrMemory::Expression(e) => {
                    match get_value(e, &self.witness_map) {
                        Ok(v) => {
                            fields.push(v);
                        },
                        Err(_) => {
                            proof {
                                lemma_payload_prefix_none(
                                    items@,
                                    self.witness(),
                                    self.blocks(),
                                    j + 1,
                                );
                            }
                            return None;
                        },
                    }
                },
                ExpressionOrMemory::Memory(block_id) => {
                    match self.block_solvers.get(&block_id.0) {
                        Some(block) => {
                            let ghost before = fields@;
                            let len = block.block_value.len();
                            let mut k: usize = 0;
                            while k < len
                                invariant
                                    len == block.block_value@.len(),
                                    0 <= k <= len,
                                    fields@ == before + block.block_value@.subrange(0, k as int),
                                decreases len - k,
                            {
                                fields.push(block.block_value[k]);
                                assert(before + block.block_value@.subrange(0, k + 1) == (before
                                    + block.block_value@.subrange(0, k as int)).push(
                                    block.block_value@[k as int],
                                ));
                                k = k + 1;
                            }
                            assert(block.block_value@.subrange(0, len as int)
                                == block.block_value@);
                            assert(self.blocks()[block_id.0] == block.block_value@);
                        },
                        None => {
                            proof {
                                lemma_payload_prefix_none(
                                    items@,
                                    self.witness(),
                                    self.blocks(),
                                    j + 1,
                                );
                            }
                            return None;
                        },
                    }
                },
            }
            j = j + 1;
        }
        assert(items@.subrange(0, m as int) == items@);
        Some(
            ResolvedAssertionPayload::Raw(
                RawAssertionPayload {
                    selector: ErrorSelector::new(descriptor.error_selector),
                    data: fields,
                },
            ),
        )
    }
}

impl<'a, F: Field, B: BlackBoxFunctionSolver<F>, V: UnconstrainedVm<F, S>, S> ACVM<'a, F, B, V, S> {
    /// Everything but the status, the instruction pointer and the witness
    /// map is as in `other`.
    pub closed spec fn same_memory_and_calls(&self, other: &Self) -> bool {
        &&& self.opcodes@ == other.opcodes@
        &&& self.assertion_payloads@ == other.assertion_payloads@
        &&& self.block_solvers@ == other.block_solvers@
        &&& self.acir_call_counter == other.acir_call_counter
        &&& self.acir_call_results@ == other.acir_call_results@
        &&& self.brillig_solver == other.brillig_solver
        &&& self.pedantic_solving == other.pedantic_solving
    }

    /// The status that an opcode's resolution leads to at instruction `ip`
    /// of `len` opcodes: the next opcode, `Solved` after the last, or a
    /// failure whose error is localized to `ip`.
    pub open spec fn resolved_status(
        resolution: Result<(), OpcodeResolutionError<F>>,
        status: ACVMStatus<F>,
        ip: int,
        len: int,
        payload: Option<(ErrorSelector, Seq<F>)>,
    ) -> bool {
        match resolution {
            Ok(()) => status == if ip + 1 == len {
                ACVMStatus::<F>::Solved
            } else {
                ACVMStatus::<F>::InProgress
            },
            Err(e) => match status {
                ACVMStatus::Failure(out) => is_localized(e, out, OpcodeLocation::Acir(ip as usize), payload),
                _ => false,
            },
        }
    }

    /// The payload that a failed assertion at `ip` would carry now.
    pub open spec fn payload_at(&self, ip: int) -> Option<(ErrorSelector, Seq<F>)> {
        expected_payload(self.payload_table(), OpcodeLocation::Acir(ip as usize), self.witness(), self.blocks())
    }

    /// Advances past the current opcode on success; on an error, resolves
    /// its location to the current opcode and fails.
    fn handle_opcode_resolution(&mut self, resolution: Result<(), OpcodeResolutionError<F>>) -> (r:
        ACVMStatus<F>)
        requires
            old(self).wf(),
            old(self).ip() < old(self).opcode_seq().len(),
        ensures
            final(self).wf(),
            final(self).same_memory_and_calls(old(self)),
            final(self).witness() == old(self).witness(),
            final(self).samples() == old(self).samples(),
            final(self).is_profiling() == old(self).is_profiling(),
            final(self).is_fuzzing() == old(self).is_fuzzing(),
            final(self).ip() == (if resolution is Ok {
                old(self).ip() + 1
            } else {
                old(self).ip()
            }),
            Self::resolved_status(
                resolution,
                final(self).status_spec(),
                old(self).ip(),
                old(self).opcode_seq().len() as int,
                old(self).payload_at(old(self).ip()),
            ),
            same_status(r, final(self).status_spec()),
    {
        match resolution {
            Ok(()) => {
                let n = self.opcodes.len();
                assert(self.instruction_pointer < n);
                self.instruction_pointer = self.instruction_pointer + 1;
                self.solved_opcodes = Ghost(self.solved_opcodes@.push(old(self).instruction_pointer as int));
                assert(self.solved_opcodes@ =~= Seq::new(self.instruction_pointer as nat, |i: int| i));
                if self.instruction_pointer == self.opcodes.len() {
                    self.status = ACVMStatus::Solved;
                } else {
                    self.status = ACVMStatus::InProgress;
                }
            },
            Err(error) => {
                let location = OpcodeLocation::Acir(self.instruction_pointer);
                let error = match error {
                    OpcodeResolutionError::IndexOutOfBounds { opcode_location: _, index, array_size } => {
                        OpcodeResolutionError::IndexOutOfBounds {
                            opcode_location: ErrorLocation::Resolved(location),
                            index,
                            array_size,
                        }
                    },
                    OpcodeResolutionError::UnsatisfiedConstrain { opcode_location: _, payload: _ } => {
                        let payload = self.extract_assertion_payload(location);
                        OpcodeResolutionError::UnsatisfiedConstrain {
                            opcode_location: ErrorLocation::Resolved(location),
                            payload,
                        }
                    },
                    OpcodeResolutionError::InvalidInputBitSize { opcode_location: _, invalid_input_bit_size } => {
                        OpcodeResolutionError::InvalidInputBitSize {
                            opcode_location: ErrorLocation::Resolved(location),
                            invalid_input_bit_size,
                        }
                    },
                    other => other,
                };
                self.status = ACVMStatus::Failure(error);
            },
        }
        self.status.copy()
    }

    pub fn get_status(&self) -> (r: &ACVMStatus<F>)
        ensures
            *r == self.status_spec(),
    {
        &self.status
    }

    /// The current assignment.
    pub fn witness_map(&self) -> (r: &WitnessMap<F>)
        ensures
            r@ == self.witness(),
    {
        &self.witness_map
    }

    /// Replaces the value of `witness` whatever it held, bypassing
    /// monotone insertion; meant for debuggers.
    pub fn overwrite_witness(&mut self, witness: Witness, value: F) -> (r: Option<F>)
        requires
            old(self).wf(),
        ensures
            final(self).wf(),
            final(self).witness() == old(self).witness().insert(witness.0, value),
            r == (if old(self).witness().contains_key(witness.0) {
                Some(old(self).witness()[witness.0])
            } else {
                None
            }),
            final(self).same_memory_and_calls(old(self)),
            final(self).status_spec() == old(self).status_spec(),
            final(self).ip() == old(self).ip(),
    {
        self.witness_map.insert(witness, value)
    }

    pub fn opcodes(&self) -> (r: &[Opcode<F>])
        ensures
            r@ == self.opcode_seq(),
    {
        self.opcodes
    }

    /// Index of the next opcode to solve.
    pub fn instruction_pointer(&self) -> (r: usize)
        ensures
            r as int == self.ip(),
    {
        self.instruction_pointer
    }

    pub fn with_profiler(&mut self, profiling_active: bool)
        requires
            old(self).wf(),
        ensures
            final(self).wf(),
            final(self).is_profiling() == profiling_active,
            final(self).same_memory_and_calls(old(self)),
            final(self).witness() == old(self).witness(),
            final(self).status_spec() == old(self).status_spec(),
            final(self).ip() == old(self).ip(),
    {
        self.profiling_active = profiling_active;
    }

    pub closed spec fn is_profiling(&self) -> bool {
        self.profiling_active
    }

    pub closed spec fn fuzzing_trace_spec(&self) -> Option<Seq<u32>> {
        match self.brillig_fuzzing_trace {
            Some(t) => Some(t@),
            None => None,
        }
    }

    pub closed spec fn is_fuzzing(&self) -> bool {
        self.brillig_fuzzing_active
    }

    /// Turns on fuzzing trace capture when a branch map is given.
    pub fn with_brillig_fuzzing(&mut self, brillig_branch_to_feature_map: Option<&'a BranchToFeatureMap>)
        requires
            old(self).wf(),
        ensures
            final(self).wf(),
            final(self).is_fuzzing() == (brillig_branch_to_feature_map is Some),
            final(self).same_memory_and_calls(old(self)),
            final(self).witness() == old(self).witness(),
            final(self).status_spec() == old(self).status_spec(),
            final(self).ip() == old(self).ip(),
    {
        self.brillig_fuzzing_active = brillig_branch_to_feature_map.is_some();
        self.brillig_branch_to_feature_map = brillig_branch_to_feature_map;
    }

    /// The branch-coverage trace of the last unconstrained call, if traced.
    pub fn get_brillig_fuzzing_trace(&self) -> (r: Option<Vec<u32>>)
        ensures
            r is Some == (self.fuzzing_trace_spec() is Some),
            r is Some ==> r.unwrap()@ == self.fuzzing_trace_spec().unwrap(),
    {
        match &self.brillig_fuzzing_trace {
            Some(t) => {
                let mut out: Vec<u32> = Vec::new();
                let mut i: usize = 0;
                while i < t.len()
                    invariant
                        0 <= i <= t@.len(),
                        out@ == t@.subrange(0, i as int),
                    decreases t@.len() - i,
                {
                    out.push(t[i]);
                    assert(t@.subrange(0, i + 1) == t@.subrange(0, i as int).push(t@[i as int]));
                    i = i + 1;
                }
                assert(t@.subrange(0, t@.len() as int) == t@);
                Some(out)
            },
            None => None,
        }
    }

    pub closed spec fn samples(&self) -> Seq<ProfilingSample> {
        self.profiling_samples@
    }

    /// Hands out the profiling samples gathered so far, leaving none.
    pub fn take_profiling_samples(&mut self) -> (r: Vec<ProfilingSample>)
        requires
            old(self).wf(),
        ensures
            final(self).wf(),
            r@ == old(self).samples(),
            final(self).samples().len() == 0,
            final(self).same_memory_and_calls(old(self)),
            final(self).witness() == old(self).witness(),
            final(self).status_spec() == old(self).status_spec(),
            final(self).ip() == old(self).ip(),
    {
        let mut taken: Vec<ProfilingSample> = Vec::new();
        std::mem::swap(&mut taken, &mut self.profiling_samples);
        taken
    }

    /// The witness map of a solved circuit; every opcode was solved, in
    /// order.
    pub fn finalize(self) -> (r: WitnessMap<F>)
        requires
            self.wf(),
            self.status_spec() is Solved,
        ensures
            r@ == self.witness(),
            self.ip() == self.opcode_seq().len(),
            self.solved_log() == Seq::new(self.opcode_seq().len(), |i: int| i),
    {
        self.witness_map
    }

    /// The foreign call that the machine waits on, if any.
    pub fn get_pending_foreign_call(&self) -> (r: Option<&ForeignCallWaitInfo<F>>)
        ensures
            match self.status_spec() {
                ACVMStatus::RequiresForeignCall(info) => r == Some(&info),
                _ => r is None,
            },
    {
        match &self.status {
            ACVMStatus::RequiresForeignCall(foreign_call) => Some(foreign_call),
            _ => None,
        }
    }

    pub open spec fn waits_on_foreign_call(&self) -> bool {
        self.status_spec() is RequiresForeignCall && self.has_suspended_call()
    }

    /// Hands a foreign call's result to the suspended unconstrained call and
    /// resumes.
    pub fn resolve_pending_foreign_call(&mut self, foreign_call_result: ForeignCallResult<F>)
        requires
            old(self).wf(),
            old(self).status_spec() is RequiresForeignCall,
        ensures
            final(self).wf(),
            final(self).status_spec() is InProgress,
            final(self).witness() == old(self).witness(),
            final(self).ip() == old(self).ip(),
            final(self).has_suspended_call(),
    {
        match &mut self.brillig_solver {
            Some(solver) => {
                self.unconstrained_functions.resolve_pending_foreign_call(solver, foreign_call_result);
            },
            None => {},
        }
        self.status = ACVMStatus::InProgress;
    }

    /// The machine waits on a circuit call whose result has not been given.
    pub open spec fn waits_on_acir_call(&self) -> bool {
        self.status_spec() is RequiresAcirCall && self.call_counter() == self.call_results().len()
    }

    /// Records the result of the pending circuit call and resumes.
    pub fn resolve_pending_acir_call(&mut self, call_result: Vec<F>)
        requires
            old(self).wf(),
            old(self).status_spec() is RequiresAcirCall,
        ensures
            final(self).wf(),
            final(self).status_spec() is InProgress,
            final(self).call_results() == old(self).call_results().push(call_result@),
            final(self).call_counter() == old(self).call_counter(),
            final(self).witness() == old(self).witness(),
            final(self).ip() == old(self).ip(),
    {
        self.acir_call_results.push(call_result);
        self.status = ACVMStatus::InProgress;
        assert(self.call_results() =~= old(self).call_results().push(call_result@));
    }
}

/// The initial witness of a circuit call: input `i` becomes `Witness(i)`.
pub open spec fn call_initial_witness<F>(inputs: Seq<Witness>, w: Map<u32, F>) -> Map<u32, F> {
    Map::new(|k: u32| (k as int) < inputs.len(), |k: u32| w[inputs[k as int].0])
}

/// `n` zeros.
fn zero_values<F: Field>(n: usize) -> (r: Vec<F>)
    ensures
        r@ == zeros::<F>(n as nat),
{
    let mut v: Vec<F> = Vec::new();
    let mut i: usize = 0;
    while i < n
        invariant
            0 <= i <= n,
            v@ == zeros::<F>(i as nat),
        decreases n - i,
    {
        v.push(F::zero());
        assert(v@ =~= zeros::<F>((i + 1) as nat));
        i = i + 1;
    }
    v
}

/// Assigns the values a blackbox primitive returned to its outputs; a
/// count that differs from the outputs' is a failure of the primitive.
pub fn write_black_box_outputs<F: Field>(
    w: &mut WitnessMap<F>,
    func: BlackBoxFunc,
    outputs: &Vec<Witness>,
    values: &Vec<F>,
) -> (r: Result<(), OpcodeResolutionError<F>>)
    ensures
        old(w)@.submap_of(final(w)@),
        values@.len() != outputs@.len() ==> final(w)@ == old(w)@ && match r {
            Err(OpcodeResolutionError::BlackBoxFunctionFailed(f, _)) => f == func,
            _ => false,
        },
        values@.len() == outputs@.len() && outputs_insertable(old(w)@, outputs@, values@) ==> r
            == Ok::<(), OpcodeResolutionError<F>>(()) && final(w)@ == with_outputs(
            old(w)@,
            outputs@,
            values@,
        ),
        values@.len() == outputs@.len() && !outputs_insertable(old(w)@, outputs@, values@) ==> r
            == Err::<(), _>(unsatisfied::<F>()),
{
    if values.len() != outputs.len() {
        return Err(
            OpcodeResolutionError::BlackBoxFunctionFailed(
                func,
                "the number of results differs from the number of outputs".to_string(),
            ),
        );
    }
    insert_outputs(w, outputs, values)
}

/// The call stack of a profiling sample taken inside the unconstrained
/// call made at `acir_index`.
pub open spec fn sample_stack(acir_index: usize, stack: Seq<usize>) -> Seq<OpcodeLocation> {
    seq![OpcodeLocation::Acir(acir_index)] + stack.map_values(
        |b: usize| OpcodeLocation::Brillig { acir_index, brillig_index: b },
    )
}

/// A profiling sample of the call to `id` made at `acir_index`.
pub fn profiling_sample(acir_index: usize, id: BrilligFunctionId, stack: &Vec<usize>) -> (r: ProfilingSample)
    ensures
        r.call_stack@ == sample_stack(acir_index, stack@),
        r.brillig_function_id == Some(id),
{
    let mut call_stack: Vec<OpcodeLocation> = Vec::new();
    call_stack.push(OpcodeLocation::Acir(acir_index));
    let mut i: usize = 0;
    while i < stack.len()
        invariant
            0 <= i <= stack@.len(),
            call_stack@ == sample_stack(acir_index, stack@.subrange(0, i as int)),
        decreases stack@.len() - i,
    {
        call_stack.push(OpcodeLocation::Brillig { acir_index, brillig_index: stack[i] });
        assert(sample_stack(acir_index, stack@.subrange(0, i + 1)) =~= sample_stack(
            acir_index,
            stack@.subrange(0, i as int),
        ).push(OpcodeLocation::Brillig { acir_index, brillig_index: stack@[i as int] }));
        i = i + 1;
    }
    assert(stack@.subrange(0, stack@.len() as int) == stack@);
    ProfilingSample { call_stack, brillig_function_id: Some(id) }
}

/// The failure of the unconstrained call to `id` made at `acir_index`,
/// with no payload.
pub open spec fn is_call_failure<F>(e: OpcodeResolutionError<F>, id: BrilligFunctionId, acir_index: usize) -> bool {
    match e {
        OpcodeResolutionError::BrilligFunctionFailed { function_id, call_stack, payload } => function_id
            == id && call_stack@ == seq![OpcodeLocation::Acir(acir_index)] && payload is None,
        _ => false,
    }
}

/// The error for an unconstrained call to `id`, made at `acir_index`,
/// that did not end as the circuit needs.
pub fn brillig_call_failed<F>(id: BrilligFunctionId, acir_index: usize) -> (r: OpcodeResolutionError<F>)
    ensures
        is_call_failure(r, id, acir_index),
{
    let mut call_stack: Vec<OpcodeLocation> = Vec::new();
    call_stack.push(OpcodeLocation::Acir(acir_index));
    OpcodeResolutionError::BrilligFunctionFailed { function_id: id, call_stack, payload: None }
}

/// Assigns the values that a finished unconstrained call to `id`, made at
/// `acir_index`, returned to the call's outputs; another number of values
/// than outputs is a failure of the call.
pub fn write_brillig_outputs<F: Field>(
    w: &mut WitnessMap<F>,
    id: BrilligFunctionId,
    acir_index: usize,
    outputs: &Vec<Witness>,
    values: &Vec<F>,
) -> (r: Result<(), OpcodeResolutionError<F>>)
    ensures
        old(w)@.submap_of(final(w)@),
        values@.len() != outputs@.len() ==> final(w)@ == old(w)@ && r is Err && is_call_failure(
            r->Err_0,
            id,
            acir_index,
        ),
        values@.len() == outputs@.len() && outputs_insertable(old(w)@, outputs@, values@) ==> r
            == Ok::<(), OpcodeResolutionError<F>>(()) && final(w)@ == with_outputs(
            old(w)@,
            outputs@,
            values@,
        ),
        values@.len() == outputs@.len() && !outputs_insertable(old(w)@, outputs@, values@) ==> r
            == Err::<(), _>(unsatisfied::<F>()),
{
    if values.len() != outputs.len() {
        return Err(brillig_call_failed(id, acir_index));
    }
    insert_outputs(w, outputs, values)
}

/// `new` is `old` followed by one sample of the call to `id` made at
/// `acir_index` for each call stack of `stacks`.
pub open spec fn samples_appended(
    old: Seq<ProfilingSample>,
    new: Seq<ProfilingSample>,
    acir_index: usize,
    id: BrilligFunctionId,
    stacks: Seq<Seq<usize>>,
) -> bool {
    &&& new.len() == old.len() + stacks.len()
    &&& new.subrange(0, old.len() as int) == old
    &&& forall|j: int|
        0 <= j < stacks.len() ==> (#[trigger] new[old.len() + j]).call_stack@ == sample_stack(
            acir_index,
            stacks[j],
        ) && new[old.len() + j].brillig_function_id == Some(id)
}

/// The values handed to an unconstrained call: each expression's value
/// and all values of each memory block, in order; the first input that
/// cannot be resolved gives the error.
pub open spec fn brillig_input_values<F: Field>(
    inputs: Seq<BrilligInputs<F>>,
    w: Map<u32, F>,
    blocks: Map<u32, Seq<F>>,
) -> Result<Seq<F>, OpcodeResolutionError<F>>
    decreases inputs.len(),
{
    if inputs.len() == 0 {
        Ok(seq![])
    } else {
        match brillig_input_values(inputs.drop_last(), w, blocks) {
            Err(e) => Err(e),
            Ok(prev) => match inputs.last() {
                BrilligInputs::Single(e) => match get_value_spec(e, w) {
                    Ok(v) => Ok(prev.push(v)),
                    Err(e) => Err(e),
                },
                BrilligInputs::MemoryArray(b) => if blocks.contains_key(b.0) {
                    Ok(prev + blocks[b.0])
                } else {
                    Err(
                        OpcodeResolutionError::OpcodeNotSolvable(
                            OpcodeNotSolvable::MissingMemoryBlock(b.0),
                        ),
                    )
                },
            },
        }
    }
}

proof fn lemma_brillig_inputs_prefix_err<F: Field>(
    inputs: Seq<BrilligInputs<F>>,
    w: Map<u32, F>,
    blocks: Map<u32, Seq<F>>,
    j: int,
)
    requires
        0 <= j <= inputs.len(),
        brillig_input_values(inputs.subrange(0, j), w, blocks) is Err,
    ensures
        brillig_input_values(inputs, w, blocks) == brillig_input_values(
            inputs.subrange(0, j),
            w,
            blocks,
        ),
    decreases inputs.len(),
{
    if j < inputs.len() {
        assert(inputs.drop_last().subrange(0, j) == inputs.subrange(0, j));
        lemma_brillig_inputs_prefix_err(inputs.drop_last(), w, blocks, j);
    } else {
        assert(inputs.subrange(0, j) == inputs);
    }
}

impl<'a, F: Field, B: BlackBoxFunctionSolver<F>, V: UnconstrainedVm<F, S>, S> ACVM<'a, F, B, V, S> {
    pub closed spec fn pedantic(&self) -> bool {
        self.pedantic_solving
    }

    /// The location of the current opcode.
    pub open spec fn here(&self) -> ErrorLocation {
        ErrorLocation::Resolved(OpcodeLocation::Acir(self.ip() as usize))
    }

    /// Resolves the inputs of an unconstrained call.
    fn resolve_brillig_inputs(&self, inputs: &Vec<BrilligInputs<F>>) -> (r: Result<
        Vec<F>,
        OpcodeResolutionError<F>,
    >)
        requires
            self.wf(),
        ensures
            match brillig_input_values(inputs@, self.witness(), self.blocks()) {
                Ok(vals) => r is Ok && r.unwrap()@ == vals,
                Err(e) => r == Err::<Vec<F>, _>(e),
            },
    {
        let mut values: Vec<F> = Vec::new();
        let n = inputs.len();
        let mut j: usize = 0;
        while j < n
            invariant
                n == inputs@.len(),
                0 <= j <= n,
                self.wf(),
                brillig_input_values(inputs@.subrange(0, j as int), self.witness(), self.blocks())
                    == Ok::<Seq<F>, OpcodeResolutionError<F>>(values@),
            decreases n - j,
        {
            assert(inputs@.subrange(0, j + 1).drop_last() == inputs@.subrange(0, j as int));
            match &inputs[j] {
                BrilligInputs::Single(e) => {
                    match get_value(e, &self.witness_map) {
                        Ok(v) => values.push(v),
                        Err(err) => {
                            proof {
                                lemma_brillig_inputs_prefix_err(
                                    inputs@,
                                    self.witness(),
                                    self.blocks(),
                                    j + 1,
                                );
                            }
                            return Err(err);
                        },
                    }
                },
                BrilligInputs::MemoryArray(block_id) => {
                    match self.block_solvers.get(&block_id.0) {
                        Some(block) => {
                            let ghost before = values@;
                            let len = block.block_value.len();
                            let mut k: usize = 0;
                            while k < len
                                invariant
                                    len == block.block_value@.len(),
                                    0 <= k <= len,
                                    values@ == before + block.block_value@.subrange(0, k as int),
                                decreases len - k,
                            {
                                values.push(block.block_value[k]);
                                assert(before + block.block_value@.subrange(0, k + 1) == (before
                                    + block.block_value@.subrange(0, k as int)).push(
                                    block.block_value@[k as int],
                                ));
                                k = k + 1;
                            }
                            assert(block.block_value@.subrange(0, len as int)
                                == block.block_value@);
                            assert(self.blocks()[block_id.0] == block.block_value@);
                        },
                        None => {
                            proof {
                                lemma_brillig_inputs_prefix_err(
                                    inputs@,
                                    self.witness(),
                                    self.blocks(),
                                    j + 1,
                                );
                            }
                            return Err(
                                OpcodeResolutionError::OpcodeNotSolvable(
                                    OpcodeNotSolvable::MissingMemoryBlock(block_id.0),
                                ),
                            );
                        },
                    }
                },
            }
            j = j + 1;
        }
        assert(inputs@.subrange(0, n as int) == inputs@);
        Ok(values)
    }

    /// Defers a circuit call to the host, or consumes the result the host
    /// gave. A zero predicate sets every output to zero instead; `main`
    /// (function `0`) cannot be called.
    pub fn solve_call_opcode(&mut self) -> (r: Result<
        Option<AcirCallWaitInfo<F>>,
        OpcodeResolutionError<F>,
    >)
        requires
            old(self).wf(),
            old(self).status_spec() is InProgress,
            old(self).opcode_seq()[old(self).ip()] is Call,
        ensures
            final(self).wf(),
            final(self).status_spec() == old(self).status_spec(),
            final(self).ip() == old(self).ip(),
            final(self).opcode_seq() == old(self).opcode_seq(),
            final(self).payload_table() == old(self).payload_table(),
            final(self).blocks() == old(self).blocks(),
            final(self).call_results() == old(self).call_results(),
            final(self).has_suspended_call() == old(self).has_suspended_call(),
            old(self).witness().submap_of(final(self).witness()),
            ({
                let w = old(self).witness();
                let loc = old(self).here();
                let counter = old(self).call_counter();
                let results = old(self).call_results();
                match old(self).opcode_seq()[old(self).ip()] {
                    Opcode::Call { id, inputs, outputs, predicate } => if id.0 == 0 {
                        r == Err::<Option<AcirCallWaitInfo<F>>, _>(
                            OpcodeResolutionError::<F>::AcirMainCallAttempted { opcode_location: loc },
                        ) && final(self).witness() == w && final(self).call_counter() == counter
                    } else {
                        match predicate_false_spec(w, predicate, old(self).pedantic(), loc) {
                            Err(e) => r == Err::<Option<AcirCallWaitInfo<F>>, _>(e)
                                && final(self).witness() == w && final(self).call_counter() == counter,
                            Ok(true) => final(self).call_counter() == counter && if outputs_insertable(
                                w,
                                outputs@,
                                zeros(outputs@.len()),
                            ) {
                                r == Ok::<Option<AcirCallWaitInfo<F>>, OpcodeResolutionError<F>>(None)
                                    && final(self).witness() == with_outputs(
                                    w,
                                    outputs@,
                                    zeros(outputs@.len()),
                                )
                            } else {
                                r == Err::<Option<AcirCallWaitInfo<F>>, _>(unsatisfied::<F>())
                            },
                            Ok(false) => if counter >= results.len() {
                                final(self).witness() == w && final(self).call_counter() == counter
                                    && if all_assigned(inputs@, w) {
                                    r is Ok && r.unwrap() is Some && r.unwrap().unwrap().id == id
                                        && r.unwrap().unwrap().initial_witness@
                                        == call_initial_witness(inputs@, w)
                                } else {
                                    exists|i: int|
                                        0 <= i < inputs@.len() && !w.contains_key(inputs@[i].0)
                                            && all_assigned(inputs@.subrange(0, i), w)
                                            && r == Err::<Option<AcirCallWaitInfo<F>>, _>(
                                            OpcodeResolutionError::OpcodeNotSolvable(
                                                OpcodeNotSolvable::<F>::MissingAssignment(
                                                    #[trigger] inputs@[i].0,
                                                ),
                                            ),
                                        )
                                }
                            } else {
                                let res = results[counter];
                                if res.len() != outputs@.len() {
                                    final(self).witness() == w && final(self).call_counter() == counter
                                        && r == Err::<Option<AcirCallWaitInfo<F>>, _>(
                                        OpcodeResolutionError::<F>::AcirCallOutputsMismatch {
                                            opcode_location: loc,
                                            results_size: #[verifier::truncate] (res.len() as u32),
                                            outputs_size: #[verifier::truncate] (outputs@.len() as u32),
                                        },
                                    )
                                } else if outputs_insertable(w, outputs@, res) {
                                    r == Ok::<Option<AcirCallWaitInfo<F>>, OpcodeResolutionError<F>>(None)
                                        && final(self).witness() == with_outputs(w, outputs@, res)
                                        && final(self).call_counter() == counter + 1
                                } else {
                                    r == Err::<Option<AcirCallWaitInfo<F>>, _>(unsatisfied::<F>())
                                        && final(self).call_counter() == counter
                                }
                            },
                        }
                    },
                    _ => false,
                }
            }),
    {
        let opcodes = self.opcodes;
        let ip = self.instruction_pointer;
        let (id, inputs, outputs, predicate) = match &opcodes[ip] {
            Opcode::Call { id, inputs, outputs, predicate } => (id, inputs, outputs, predicate),
            // not reached: the opcode is a call
            _ => {
                return Err(
                    OpcodeResolutionError::AcirMainCallAttempted {
                        opcode_location: ErrorLocation::Unresolved,
                    },
                );
            },
        };
        let opcode_location = ErrorLocation::Resolved(OpcodeLocation::Acir(ip));
        if id.0 == 0 {
            return Err(OpcodeResolutionError::AcirMainCallAttempted { opcode_location });
        }
        let skip = match is_predicate_false(
            &self.witness_map,
            predicate,
            self.pedantic_solving,
            &opcode_location,
        ) {
            Ok(b) => b,
            Err(e) => {
                return Err(e);
            },
        };
        if skip {
            let zs = zero_values::<F>(outputs.len());
            return match insert_outputs(&mut self.witness_map, outputs, &zs) {
                Ok(()) => Ok(None),
                Err(e) => Err(e),
            };
        }
        if self.acir_call_counter >= self.acir_call_results.len() {
            let mut initial_witness: WitnessMap<F> = WitnessMap::new();
            let n = inputs.len();
            let mut i: usize = 0;
            while i < n
                invariant
                    n == inputs@.len(),
                    n <= u32::MAX,
                    *self == *old(self),
                    self.wf(),
                    opcodes@ == self.opcodes@,
                    ip == self.instruction_pointer,
                    opcodes@[ip as int] == (Opcode::Call { id: *id, inputs: *inputs, outputs: *outputs, predicate: *predicate }),
                    id.0 != 0,
                    predicate_false_spec(self.witness_map@, *predicate, self.pedantic_solving, opcode_location) == Ok::<bool, OpcodeResolutionError<F>>(false),
                    self.acir_call_counter >= self.acir_call_results@.len(),
                    0 <= i <= n,
                    forall|k: int| 0 <= k < i ==> self.witness_map@.contains_key(#[trigger] inputs@[k].0),
                    initial_witness@ == call_initial_witness(inputs@.subrange(0, i as int), self.witness_map@),
                decreases n - i,
            {
                let v = match witness_to_value(&self.witness_map, inputs[i]) {
                    Ok(v) => v,
                    Err(e) => {
                        assert(all_assigned(inputs@.subrange(0, i as int), self.witness_map@));
                        return Err(e);
                    },
                };
                initial_witness.insert(Witness(i as u32), v);
                assert(initial_witness@ =~= call_initial_witness(
                    inputs@.subrange(0, i + 1),
                    self.witness_map@,
                ));
                i = i + 1;
            }
            assert(inputs@.subrange(0, n as int) == inputs@);
            return Ok(Some(AcirCallWaitInfo { id: *id, initial_witness }));
        }
        let counter = self.acir_call_counter;
        let result_len = self.acir_call_results[counter].len();
        if outputs.len() != result_len {
            return Err(
                OpcodeResolutionError::AcirCallOutputsMismatch {
                    opcode_location,
                    results_size: #[verifier::truncate] (result_len as u32),
                    outputs_size: #[verifier::truncate] (outputs.len() as u32),
                },
            );
        }
        assert(self.call_results()[counter as int] == self.acir_call_results@[counter as int]@);
        match insert_outputs(&mut self.witness_map, outputs, &self.acir_call_results[counter]) {
            Ok(()) => {},
            Err(e) => {
                return Err(e);
            },
        }
        self.acir_call_counter = self.acir_call_counter + 1;
        Ok(None)
    }
}

/// The values of a memory block initialised from `init` under `w`.
pub open spec fn init_values<F>(init: Seq<Witness>, w: Map<u32, F>) -> Seq<F> {
    Seq::new(init.len(), |i: int| w[init[i].0])
}

/// Resolves the inputs of a blackbox call, checking declared bit widths.
pub fn resolve_black_box_inputs<F: Field>(w: &WitnessMap<F>, inputs: &Vec<FunctionInput<F>>) -> (r:
    Result<Vec<F>, OpcodeResolutionError<F>>)
    ensures
        (forall|i: int| 0 <= i < inputs@.len() ==> #[trigger] input_value_ok(w@, inputs@[i], false) is Some)
            ==> r is Ok,
        r is Ok ==> r.unwrap()@.len() == inputs@.len() && forall|i: int|
            0 <= i < inputs@.len() ==> Some(#[trigger] r.unwrap()@[i]) == input_value_ok(
                w@,
                inputs@[i],
                false,
            ),
{
    let mut values: Vec<F> = Vec::new();
    let mut i: usize = 0;
    while i < inputs.len()
        invariant
            0 <= i <= inputs@.len(),
            values@.len() == i,
            forall|k: int| 0 <= k < i ==> Some(#[trigger] values@[k]) == input_value_ok(w@, inputs@[k], false),
        decreases inputs@.len() - i,
    {
        match input_to_value(w, inputs[i], false) {
            Ok(v) => values.push(v),
            Err(e) => {
                return Err(e);
            },
        }
        i = i + 1;
    }
    Ok(values)
}

impl<'a, F: Field, B: BlackBoxFunctionSolver<F>, V: UnconstrainedVm<F, S>, S> ACVM<'a, F, B, V, S> {
    /// Solves a blackbox call: resolves its inputs, has the backend compute
    /// the primitive and assigns the results to the outputs.
    fn solve_black_box_call(&mut self, call: &BlackBoxFuncCall<F>) -> (r: Result<
        (),
        OpcodeResolutionError<F>,
    >)
        requires
            old(self).wf(),
        ensures
            final(self).wf(),
            final(self).same_memory_and_calls(old(self)),
            final(self).status_spec() == old(self).status_spec(),
            final(self).ip() == old(self).ip(),
            old(self).witness().submap_of(final(self).witness()),
            !(forall|i: int|
                0 <= i < call.inputs@.len() ==> #[trigger] input_value_ok(
                    old(self).witness(),
                    call.inputs@[i],
                    false,
                ) is Some) ==> r is Err && final(self).witness() == old(self).witness(),
            r is Ok ==> exists|vals: Seq<F>|
                vals.len() == call.outputs@.len() && outputs_insertable(
                    old(self).witness(),
                    call.outputs@,
                    vals,
                ) && final(self).witness() == with_outputs(old(self).witness(), call.outputs@, vals),
            final(self).samples() == old(self).samples(),
            final(self).is_profiling() == old(self).is_profiling(),
    {
        let values = match resolve_black_box_inputs(&self.witness_map, &call.inputs) {
            Ok(v) => v,
            Err(e) => {
                return Err(e);
            },
        };
        assert forall|i: int| 0 <= i < call.inputs@.len() implies #[trigger] input_value_ok(
            self.witness(),
            call.inputs@[i],
            false,
        ) is Some by {
            assert(Some(values@[i]) == input_value_ok(self.witness_map@, call.inputs@[i], false));
        }
        match self.backend.solve_black_box(call.name, &values) {
            Ok(results) => {
                let res = write_black_box_outputs(&mut self.witness_map, call.name, &call.outputs, &results);
                proof {
                    if res is Ok {
                        assert(results@.len() == call.outputs@.len());
                        assert(outputs_insertable(old(self).witness(), call.outputs@, results@));
                    }
                }
                res
            },
            Err(e) => Err(OpcodeResolutionError::from(e)),
        }
    }

    /// Runs an unconstrained call, or resumes the suspended one. A zero
    /// predicate sets every output to zero instead. Returns the foreign
    /// call it waits on, if any.
    fn solve_brillig_call_opcode(&mut self) -> (r: Result<
        Option<ForeignCallWaitInfo<F>>,
        OpcodeResolutionError<F>,
    >)
        requires
            old(self).wf(),
            old(self).status_spec() is InProgress,
            old(self).opcode_seq()[old(self).ip()] is BrilligCall,
        ensures
            final(self).wf(),
            final(self).status_spec() == old(self).status_spec(),
            final(self).ip() == old(self).ip(),
            final(self).opcode_seq() == old(self).opcode_seq(),
            final(self).payload_table() == old(self).payload_table(),
            final(self).blocks() == old(self).blocks(),
            final(self).call_results() == old(self).call_results(),
            final(self).call_counter() == old(self).call_counter(),
            old(self).witness().submap_of(final(self).witness()),
            (r is Ok && r.unwrap() is Some) ==> final(self).has_suspended_call()
                && final(self).witness() == old(self).witness(),
            final(self).is_profiling() == old(self).is_profiling(),
            final(self).is_fuzzing() == old(self).is_fuzzing(),
            ({
                let w = old(self).witness();
                let loc = old(self).here();
                let ip = old(self).ip() as usize;
                match old(self).opcode_seq()[old(self).ip()] {
                    Opcode::BrilligCall { id, inputs, outputs, predicate } => {
                        let runs = predicate_false_spec(w, predicate, old(self).pedantic(), loc)
                            == Ok::<bool, OpcodeResolutionError<F>>(false);
                        &&& runs && r == Ok::<Option<ForeignCallWaitInfo<F>>, OpcodeResolutionError<F>>(None)
                            ==> (exists|vals: Seq<F>|
                            vals.len() == outputs@.len() && outputs_insertable(w, outputs@, vals)
                                && final(self).witness() == with_outputs(w, outputs@, vals))
                        &&& runs && r == Ok::<Option<ForeignCallWaitInfo<F>>, OpcodeResolutionError<F>>(None)
                            && old(self).is_profiling() ==> (exists|stacks: Seq<Seq<usize>>|
                            samples_appended(old(self).samples(), final(self).samples(), ip, id, stacks))
                        &&& !(runs && r == Ok::<Option<ForeignCallWaitInfo<F>>, OpcodeResolutionError<F>>(None)
                            && old(self).is_profiling()) ==> final(self).samples() == old(self).samples()
                    },
                    _ => false,
                }
            }),
            ({
                let w = old(self).witness();
                let loc = old(self).here();
                match old(self).opcode_seq()[old(self).ip()] {
                    Opcode::BrilligCall { id, inputs, outputs, predicate } => match predicate_false_spec(
                        w,
                        predicate,
                        old(self).pedantic(),
                        loc,
                    ) {
                        Err(e) => r == Err::<Option<ForeignCallWaitInfo<F>>, _>(e)
                            && final(self).witness() == w,
                        Ok(true) => if outputs_insertable(w, outputs@, zeros(outputs@.len())) {
                            r == Ok::<Option<ForeignCallWaitInfo<F>>, OpcodeResolutionError<F>>(None)
                                && final(self).witness() == with_outputs(
                                w,
                                outputs@,
                                zeros(outputs@.len()),
                            )
                        } else {
                            r == Err::<Option<ForeignCallWaitInfo<F>>, _>(unsatisfied::<F>())
                        },
                        Ok(false) => !old(self).has_suspended_call() ==> match brillig_input_values(
                            inputs@,
                            w,
                            old(self).blocks(),
                        ) {
                            Err(e) => r == Err::<Option<ForeignCallWaitInfo<F>>, _>(e)
                                && final(self).witness() == w,
                            Ok(_) => true,
                        },
                    },
                    _ => false,
                }
            }),
    {
        let opcodes = self.opcodes;
        let ip = self.instruction_pointer;
        let (id, inputs, outputs, predicate) = match &opcodes[ip] {
            Opcode::BrilligCall { id, inputs, outputs, predicate } => (id, inputs, outputs, predicate),
            // not reached: the opcode is an unconstrained call
            _ => {
                return Ok(None);
            },
        };
        let opcode_location = ErrorLocation::Resolved(OpcodeLocation::Acir(ip));
        let skip = match is_predicate_false(
            &self.witness_map,
            predicate,
            self.pedantic_solving,
            &opcode_location,
        ) {
            Ok(b) => b,
            Err(e) => {
                return Err(e);
            },
        };
        if skip {
            let zs = zero_values::<F>(outputs.len());
            return match insert_outputs(&mut self.witness_map, outputs, &zs) {
                Ok(()) => Ok(None),
                Err(e) => Err(e),
            };
        }
        let mut cached: Option<S> = None;
        std::mem::swap(&mut cached, &mut self.brillig_solver);
        let mut solver = match cached {
            Some(solver) => solver,
            None => {
                let values = match self.resolve_brillig_inputs(inputs) {
                    Ok(v) => v,
                    Err(e) => {
                        return Err(e);
                    },
                };
                self.unconstrained_functions.new_call(
                    *id,
                    values,
                    ip,
                    self.profiling_active,
                    self.brillig_branch_to_feature_map,
                )
            },
        };
        let vm = self.unconstrained_functions;
        let result = vm.solve(&mut solver);
        match result {
            Err(e) => {
                if self.brillig_fuzzing_active {
                    self.brillig_fuzzing_trace = Some(vm.fuzzing_trace(&solver));
                }
                Err(e)
            },
            Ok(BrilligSolverStatus::ForeignCallWait(foreign_call)) => {
                self.brillig_solver = Some(solver);
                Ok(Some(foreign_call))
            },
            // The interpreter runs a call until it halts; a call still in
            // progress is reported as a failure of the function.
            Ok(BrilligSolverStatus::InProgress) => Err(brillig_call_failed(*id, ip)),
            Ok(BrilligSolverStatus::Finished) => {
                if self.brillig_fuzzing_active {
                    self.brillig_fuzzing_trace = Some(vm.fuzzing_trace(&solver));
                }
                let values = vm.return_values(&solver);
                match write_brillig_outputs(&mut self.witness_map, *id, ip, outputs, &values) {
                    Ok(()) => {},
                    Err(e) => {
                        return Err(e);
                    },
                }
                assert(values@.len() == outputs@.len() && outputs_insertable(
                    old(self).witness(),
                    outputs@,
                    values@,
                ) && self.witness() == with_outputs(old(self).witness(), outputs@, values@));
                if self.profiling_active {
                    let stacks = vm.profiling_call_stacks(&solver);
                    let ghost views = stacks@.map_values(|c: Vec<usize>| c@);
                    let mut i: usize = 0;
                    assert(self.profiling_samples@.subrange(0, self.profiling_samples@.len() as int) == self.profiling_samples@);
                    while i < stacks.len()
                        invariant
                            0 <= i <= stacks@.len(),
                            views == stacks@.map_values(|c: Vec<usize>| c@),
                            samples_appended(
                                old(self).profiling_samples@,
                                self.profiling_samples@,
                                ip,
                                *id,
                                views.subrange(0, i as int),
                            ),
                            self.witness() == with_outputs(old(self).witness(), outputs@, values@),
                            self.profiling_active == old(self).profiling_active,
                            self.brillig_fuzzing_active == old(self).brillig_fuzzing_active,
                            self.wf(),
                            self.opcodes@ == old(self).opcodes@,
                            self.assertion_payloads@ == old(self).assertion_payloads@,
                            self.block_solvers@ == old(self).block_solvers@,
                            self.acir_call_counter == old(self).acir_call_counter,
                            self.acir_call_results@ == old(self).acir_call_results@,
                            self.status == old(self).status,
                            self.instruction_pointer == old(self).instruction_pointer,
                            old(self).witness().submap_of(self.witness()),
                        decreases stacks@.len() - i,
                    {
                        let sample = profiling_sample(ip, *id, &stacks[i]);
                        let ghost before = self.profiling_samples@;
                        self.profiling_samples.push(sample);
                        assert(self.profiling_samples@.subrange(0, old(self).profiling_samples@.len() as int)
                            == before.subrange(0, old(self).profiling_samples@.len() as int));
                        assert forall|j: int| 0 <= j < i + 1 implies (#[trigger] self.profiling_samples@[old(self).profiling_samples@.len() + j]).call_stack@
                            == sample_stack(ip, views.subrange(0, i + 1)[j])
                            && self.profiling_samples@[old(self).profiling_samples@.len() + j].brillig_function_id == Some(*id) by {
                            if j < i {
                                assert(self.profiling_samples@[old(self).profiling_samples@.len() + j] == before[old(self).profiling_samples@.len() + j]);
                                assert(views.subrange(0, i + 1)[j] == views.subrange(0, i as int)[j]);
                            }
                        }
                        i = i + 1;
                    }
                    assert(views.subrange(0, stacks@.len() as int) == views);
                    assert(samples_appended(old(self).samples(), self.samples(), ip, *id, views));
                }
                Ok(None)
            },
        }
    }
}

/// The status after solving opcode `ip` of `len`.
pub open spec fn next_status<F>(ip: int, len: int) -> ACVMStatus<F> {
    if ip + 1 == len {
        ACVMStatus::Solved
    } else {
        ACVMStatus::InProgress
    }
}

/// An error of one of the located kinds points at opcode `ip`.
pub open spec fn located_at<F>(e: OpcodeResolutionError<F>, ip: int) -> bool {
    let here = ErrorLocation::Resolved(OpcodeLocation::Acir(ip as usize));
    match e {
        OpcodeResolutionError::IndexOutOfBounds { opcode_location, .. } => opcode_location == here,
        OpcodeResolutionError::UnsatisfiedConstrain { opcode_location, .. } => opcode_location == here,
        OpcodeResolutionError::InvalidInputBitSize { opcode_location, .. } => opcode_location == here,
        _ => true,
    }
}

proof fn lemma_localized_is_located<F>(
    e: OpcodeResolutionError<F>,
    out: OpcodeResolutionError<F>,
    ip: int,
    payload: Option<(ErrorSelector, Seq<F>)>,
)
    requires
        is_localized(e, out, OpcodeLocation::Acir(ip as usize), payload),
    ensures
        located_at(out, ip),
{
}

/// A memory operation only adds assignments.
pub proof fn lemma_memory_outcome_monotone<F: Field>(
    block: Seq<F>,
    op: MemOp<F>,
    w: Map<u32, F>,
    predicate: Option<Expression<F>>,
    pedantic: bool,
)
    ensures
        w.submap_of(memory_op_outcome(block, op, w, predicate, pedantic).2),
{
}

impl<'a, F: Field, B: BlackBoxFunctionSolver<F>, V: UnconstrainedVm<F, S>, S> ACVM<'a, F, B, V, S> {
    /// How one step moves the machine: on to the next opcode, to a failure
    /// located at the current opcode, or to a suspension on it.
    pub open spec fn step_shape(old: &Self, new: &Self) -> bool {
        let ip = old.ip();
        let len = old.opcode_seq().len() as int;
        match new.status_spec() {
            ACVMStatus::InProgress => new.ip() == ip + 1 && ip + 1 < len,
            ACVMStatus::Solved => new.ip() == ip + 1 && ip + 1 == len,
            ACVMStatus::Failure(e) => new.ip() == ip && located_at(e, ip),
            ACVMStatus::RequiresForeignCall(_) => new.ip() == ip && old.opcode_seq()[ip] is BrilligCall
                && new.has_suspended_call(),
            ACVMStatus::RequiresAcirCall(info) => new.ip() == ip && new.witness() == old.witness()
                && new.call_counter() == new.call_results().len() && match old.opcode_seq()[ip] {
                Opcode::Call { id, inputs, .. } => info.id == id && info.initial_witness@
                    == call_initial_witness(inputs@, old.witness()),
                _ => false,
            },
        }
    }

    /// What running or resuming the unconstrained call to `id` with
    /// `outputs` does: a suspension writes nothing; a finished call assigns
    /// one value to each output, advances, and adds its profiling samples.
    pub open spec fn brillig_run_effect(
        old: &Self,
        new: &Self,
        id: BrilligFunctionId,
        outputs: Seq<Witness>,
    ) -> bool {
        &&& new.status_spec() is RequiresForeignCall ==> new.witness() == old.witness()
            && new.samples() == old.samples()
        &&& new.ip() == old.ip() + 1 ==> exists|vals: Seq<F>|
            vals.len() == outputs.len() && outputs_insertable(old.witness(), outputs, vals)
                && new.witness() == with_outputs(old.witness(), outputs, vals)
        &&& new.ip() == old.ip() + 1 && old.is_profiling() ==> exists|stacks: Seq<Seq<usize>>|
            #[trigger] samples_appended(old.samples(), new.samples(), old.ip() as usize, id, stacks)
    }

    /// What one step does for each kind of opcode whose work lies within
    /// the machine.
    pub open spec fn step_effect(old: &Self, new: &Self) -> bool {
        let ip = old.ip();
        let len = old.opcode_seq().len() as int;
        let w = old.witness();
        let payload = old.payload_at(ip);
        match old.opcode_seq()[ip] {
            Opcode::AssertZero(e) => {
                &&& one_unknown(e, w) ==> new.status_spec() == next_status::<F>(ip, len)
                    && new.witness() == w.insert(
                    solved_assignment(e, w).unwrap().0.0,
                    solved_assignment(e, w).unwrap().1,
                )
                &&& only_constant(e, w) ==> new.witness() == w && Self::resolved_status(
                    if reduced_constant(e, w) == F::zero_spec() {
                        Ok(())
                    } else {
                        Err(unsatisfied())
                    },
                    new.status_spec(),
                    ip,
                    len,
                    payload,
                )
                &&& !one_unknown(e, w) && !only_constant(e, w) ==> new.witness() == w
                    && new.ip() == ip && match new.status_spec() {
                    ACVMStatus::Failure(
                        OpcodeResolutionError::OpcodeNotSolvable(
                            OpcodeNotSolvable::ExpressionHasTooManyUnknowns(red),
                        ),
                    ) => is_reduction(red, e, w),
                    _ => false,
                }
            },
            Opcode::BlackBoxFuncCall(call) => {
                &&& !(forall|i: int|
                    0 <= i < call.inputs@.len() ==> #[trigger] input_value_ok(
                        w,
                        call.inputs@[i],
                        false,
                    ) is Some) ==> new.witness() == w && new.status_spec() is Failure
                &&& new.ip() == ip + 1 ==> exists|vals: Seq<F>|
                    vals.len() == call.outputs@.len() && outputs_insertable(w, call.outputs@, vals)
                        && new.witness() == with_outputs(w, call.outputs@, vals)
            },
            Opcode::MemoryInit { block_id, init } => if all_assigned(init@, w) {
                new.blocks() == old.blocks().insert(block_id.0, init_values(init@, w))
                    && new.status_spec() == next_status::<F>(ip, len) && new.witness() == w
            } else {
                &&& new.witness() == w
                &&& new.blocks() == old.blocks()
                &&& exists|i: int|
                    0 <= i < init@.len() && !w.contains_key(init@[i].0) && all_assigned(
                        init@.subrange(0, i),
                        w,
                    ) && new.status_spec() == ACVMStatus::<F>::Failure(
                        OpcodeResolutionError::OpcodeNotSolvable(
                            OpcodeNotSolvable::MissingAssignment(#[trigger] init@[i].0),
                        ),
                    )
            },
            Opcode::MemoryOp { block_id, op, predicate } => if old.blocks().contains_key(block_id.0) {
                let out = memory_op_outcome(old.blocks()[block_id.0], op, w, predicate, old.pedantic());
                &&& new.witness() == out.2
                &&& new.blocks() == old.blocks().insert(block_id.0, out.1)
                &&& Self::resolved_status(out.0, new.status_spec(), ip, len, payload)
            } else {
                new.witness() == w && new.status_spec() == ACVMStatus::<F>::Failure(
                    OpcodeResolutionError::OpcodeNotSolvable(
                        OpcodeNotSolvable::MissingMemoryBlock(block_id.0),
                    ),
                )
            },
            Opcode::Call { id, inputs, outputs, predicate } => if id.0 == 0 {
                new.status_spec() == ACVMStatus::<F>::Failure(
                    OpcodeResolutionError::AcirMainCallAttempted { opcode_location: old.here() },
                ) && new.witness() == w
            } else {
                match predicate_false_spec(w, predicate, old.pedantic(), old.here()) {
                    Err(e) => new.witness() == w && Self::resolved_status(
                        Err(e),
                        new.status_spec(),
                        ip,
                        len,
                        payload,
                    ),
                    Ok(true) => if outputs_insertable(w, outputs@, zeros(outputs@.len())) {
                        new.witness() == with_outputs(w, outputs@, zeros(outputs@.len()))
                            && new.status_spec() == next_status::<F>(ip, len)
                    } else {
                        new.status_spec() is Failure
                    },
                    Ok(false) => if old.call_counter() >= old.call_results().len() {
                        new.witness() == w && if all_assigned(inputs@, w) {
                            match new.status_spec() {
                                ACVMStatus::RequiresAcirCall(info) => info.id == id
                                    && info.initial_witness@ == call_initial_witness(inputs@, w),
                                _ => false,
                            }
                        } else {
                            exists|i: int|
                                0 <= i < inputs@.len() && !w.contains_key(inputs@[i].0)
                                    && all_assigned(inputs@.subrange(0, i), w)
                                    && new.status_spec() == ACVMStatus::<F>::Failure(
                                    OpcodeResolutionError::OpcodeNotSolvable(
                                        OpcodeNotSolvable::MissingAssignment(
                                            #[trigger] inputs@[i].0,
                                        ),
                                    ),
                                )
                        }
                    } else {
                        let res = old.call_results()[old.call_counter()];
                        if res.len() != outputs@.len() {
                            new.witness() == w && new.status_spec() == ACVMStatus::<F>::Failure(
                                OpcodeResolutionError::AcirCallOutputsMismatch {
                                    opcode_location: old.here(),
                                    results_size: #[verifier::truncate] (res.len() as u32),
                                    outputs_size: #[verifier::truncate] (outputs@.len() as u32),
                                },
                            )
                        } else if outputs_insertable(w, outputs@, res) {
                            new.witness() == with_outputs(w, outputs@, res) && new.call_counter()
                                == old.call_counter() + 1 && new.status_spec() == next_status::<F>(
                                ip,
                                len,
                            )
                        } else {
                            new.status_spec() is Failure && new.call_counter() == old.call_counter()
                        }
                    },
                }
            },
            Opcode::BrilligCall { id, inputs, outputs, predicate } => match predicate_false_spec(
                w,
                predicate,
                old.pedantic(),
                old.here(),
            ) {
                Err(e) => new.witness() == w && Self::resolved_status(
                    Err(e),
                    new.status_spec(),
                    ip,
                    len,
                    payload,
                ),
                Ok(true) => if outputs_insertable(w, outputs@, zeros(outputs@.len())) {
                    new.witness() == with_outputs(w, outputs@, zeros(outputs@.len()))
                        && new.status_spec() == next_status::<F>(ip, len)
                } else {
                    new.status_spec() is Failure
                },
                Ok(false) => {
                    &&& !old.has_suspended_call() ==> match brillig_input_values(
                        inputs@,
                        w,
                        old.blocks(),
                    ) {
                        Err(e) => new.witness() == w && Self::resolved_status(
                            Err(e),
                            new.status_spec(),
                            ip,
                            len,
                            payload,
                        ),
                        Ok(_) => true,
                    }
                    &&& Self::brillig_run_effect(old, new, id, outputs@)
                },
            },
            _ => true,
        }
    }

    /// Solves the opcode at the instruction pointer.
    pub fn solve_opcode(&mut self) -> (r: ACVMStatus<F>)
        requires
            old(self).wf(),
            old(self).status_spec() is InProgress,
        ensures
            final(self).wf(),
            final(self).opcode_seq() == old(self).opcode_seq(),
            final(self).payload_table() == old(self).payload_table(),
            old(self).witness().submap_of(final(self).witness()),
            Self::step_shape(old(self), final(self)),
            Self::step_effect(old(self), final(self)),
            same_status(r, final(self).status_spec()),
    {
        let opcodes = self.opcodes;
        let ip = self.instruction_pointer;
        let ghost w0 = self.witness();
        let ghost payload0 = self.payload_at(ip as int);
        let resolution = match &opcodes[ip] {
            Opcode::AssertZero(expr) => solve_expression(&mut self.witness_map, expr),
            Opcode::BlackBoxFuncCall(call) => self.solve_black_box_call(call),
            Opcode::MemoryInit { block_id, init } => {
                match MemoryOpSolver::init(init, &self.witness_map) {
                    Ok(solver) => {
                        assert(solver.block_value@ =~= init_values(init@, w0));
                        self.block_solvers.insert(block_id.0, solver);
                        assert(self.blocks() =~= old(self).blocks().insert(block_id.0, init_values(init@, w0)));
                        Ok(())
                    },
                    Err(e) => Err(e),
                }
            },
            Opcode::MemoryOp { block_id, op, predicate } => {
                match self.block_solvers.remove(&block_id.0) {
                    Some(solver) => {
                        let mut solver = solver;
                        assert(old(self).blocks()[block_id.0] == solver.block_value@);
                        let res = solver.solve_memory_op(
                            op,
                            &mut self.witness_map,
                            predicate,
                            self.pedantic_solving,
                        );
                        proof {
                            lemma_memory_outcome_monotone(
                                old(self).blocks()[block_id.0],
                                *op,
                                w0,
                                *predicate,
                                self.pedantic_solving,
                            );
                        }
                        self.block_solvers.insert(block_id.0, solver);
                        assert(self.blocks() =~= old(self).blocks().insert(
                            block_id.0,
                            solver.block_value@,
                        ));
                        proof {
                            if res is Err {
                                assert(self.blocks() =~= old(self).blocks());
                            }
                        }
                        res
                    },
                    None => {
                        assert(!old(self).blocks().contains_key(block_id.0));
                        Err(
                            OpcodeResolutionError::OpcodeNotSolvable(
                                OpcodeNotSolvable::MissingMemoryBlock(block_id.0),
                            ),
                        )
                    },
                }
            },
            Opcode::BrilligCall { .. } => match self.solve_brillig_call_opcode() {
                Ok(Some(foreign_call)) => {
                    self.status = ACVMStatus::RequiresForeignCall(foreign_call);
                    return self.status.copy();
                },
                Ok(None) => Ok(()),
                Err(e) => Err(e),
            },
            Opcode::Call { .. } => match self.solve_call_opcode() {
                Ok(Some(wait_info)) => {
                    self.status = ACVMStatus::RequiresAcirCall(wait_info);
                    return self.status.copy();
                },
                Ok(None) => Ok(()),
                Err(e) => Err(e),
            },
        };
        let ghost mid = *self;
        let ghost res = resolution;
        let status = self.handle_opcode_resolution(resolution);
        proof {
            if let ACVMStatus::Failure(out) = self.status_spec() {
                if let Err(e) = res {
                    lemma_localized_is_located(e, out, ip as int, mid.payload_at(ip as int));
                }
            }
        }
        status
    }

    /// Solves opcodes until the machine is solved, fails or waits on the
    /// host.
    pub fn solve(&mut self) -> (r: ACVMStatus<F>)
        requires
            old(self).wf(),
        ensures
            final(self).wf(),
            !(final(self).status_spec() is InProgress),
            final(self).opcode_seq() == old(self).opcode_seq(),
            old(self).witness().submap_of(final(self).witness()),
            final(self).ip() >= old(self).ip(),
            final(self).status_spec() is Solved <==> final(self).ip() == final(self).opcode_seq().len(),
            final(self).status_spec() is Failure ==> located_at(
                final(self).status_spec()->Failure_0,
                final(self).ip(),
            ),
            final(self).status_spec() is RequiresForeignCall ==> final(self).waits_on_foreign_call(),
            final(self).status_spec() is RequiresAcirCall ==> final(self).waits_on_acir_call(),
            !(old(self).status_spec() is InProgress) ==> *final(self) == *old(self),
            same_status(r, final(self).status_spec()),
    {
        while self.status.is_in_progress()
            invariant
                self.wf(),
                self.opcode_seq() == old(self).opcode_seq(),
                old(self).witness().submap_of(self.witness()),
                self.ip() >= old(self).ip(),
                !(old(self).status_spec() is InProgress) ==> *self == *old(self),
            decreases self.opcode_seq().len() - self.ip(), if self.status_spec() is InProgress { 1int } else { 0int },
        {
            let ghost before = self.witness();
            self.solve_opcode();
            proof {
                vstd::map_lib::lemma_submap_of_trans(old(self).witness(), before, self.witness());
            }
        }
        self.status.copy()
    }
}

/// What stepping into an unconstrained call gives: a status, when the
/// opcode was solved in one step, or the started call to step through.
pub enum StepResult<F, S> {
    Status(ACVMStatus<F>),
    IntoBrillig(S),
}

impl<'a, F: Field, B: BlackBoxFunctionSolver<F>, V: UnconstrainedVm<F, S>, S> ACVM<'a, F, B, V, S> {
    /// Starts the unconstrained call at the instruction pointer and hands it
    /// out for single-stepping; any other opcode, a skipped call or a call
    /// whose inputs cannot be resolved is solved as by `solve_opcode`.
    pub fn step_into_brillig(&mut self) -> (r: StepResult<F, S>)
        requires
            old(self).wf(),
            old(self).status_spec() is InProgress,
        ensures
            final(self).wf(),
            final(self).opcode_seq() == old(self).opcode_seq(),
            old(self).witness().submap_of(final(self).witness()),
            r is IntoBrillig ==> old(self).opcode_seq()[old(self).ip()] is BrilligCall
                && final(self).ip() == old(self).ip() && final(self).status_spec() is InProgress
                && final(self).witness() == old(self).witness(),
            r is Status ==> Self::step_shape(old(self), final(self)) && Self::step_effect(
                old(self),
                final(self),
            ) && same_status(r->Status_0, final(self).status_spec()),
            r is IntoBrillig <==> match old(self).opcode_seq()[old(self).ip()] {
                Opcode::BrilligCall { inputs, predicate, .. } => predicate_false_spec(
                    old(self).witness(),
                    predicate,
                    old(self).pedantic(),
                    old(self).here(),
                ) == Ok::<bool, OpcodeResolutionError<F>>(false) && brillig_input_values(
                    inputs@,
                    old(self).witness(),
                    old(self).blocks(),
                ) is Ok,
                _ => false,
            },
    {
        let opcodes = self.opcodes;
        let ip = self.instruction_pointer;
        let (id, inputs, outputs, predicate) = match &opcodes[ip] {
            Opcode::BrilligCall { id, inputs, outputs, predicate } => (id, inputs, outputs, predicate),
            _ => {
                return StepResult::Status(self.solve_opcode());
            },
        };
        let opcode_location = ErrorLocation::Resolved(OpcodeLocation::Acir(ip));
        let skip = match is_predicate_false(
            &self.witness_map,
            predicate,
            self.pedantic_solving,
            &opcode_location,
        ) {
            Ok(b) => b,
            Err(e) => {
                let ghost mid = *self;
                let st = self.handle_opcode_resolution(Err(e));
                proof {
                    if let ACVMStatus::Failure(out) = self.status_spec() {
                        lemma_localized_is_located(e, out, ip as int, mid.payload_at(ip as int));
                    }
                }
                return StepResult::Status(st);
            },
        };
        if skip {
            let zs = zero_values::<F>(outputs.len());
            let resolution = insert_outputs(&mut self.witness_map, outputs, &zs);
            let ghost res = resolution;
            let ghost mid = *self;
            let st = self.handle_opcode_resolution(resolution);
            proof {
                if let ACVMStatus::Failure(out) = self.status_spec() {
                    if let Err(e) = res {
                        lemma_localized_is_located(e, out, ip as int, mid.payload_at(ip as int));
                    }
                }
            }
            return StepResult::Status(st);
        }
        match self.resolve_brillig_inputs(inputs) {
            Ok(values) => {
                let solver = self.unconstrained_functions.new_call(
                    *id,
                    values,
                    ip,
                    self.profiling_active,
                    self.brillig_branch_to_feature_map,
                );
                StepResult::IntoBrillig(solver)
            },
            Err(e) => {
                let ghost mid = *self;
                let st = self.handle_opcode_resolution(Err(e));
                proof {
                    if let ACVMStatus::Failure(out) = self.status_spec() {
                        lemma_localized_is_located(e, out, ip as int, mid.payload_at(ip as int));
                    }
                }
                StepResult::Status(st)
            },
        }
    }

    /// Resumes the unconstrained call at the instruction pointer with a
    /// call state that was stepped outside the machine.
    pub fn finish_brillig_with_solver(&mut self, solver: S) -> (r: ACVMStatus<F>)
        requires
            old(self).wf(),
            old(self).status_spec() is InProgress,
            old(self).opcode_seq()[old(self).ip()] is BrilligCall,
        ensures
            final(self).wf(),
            final(self).opcode_seq() == old(self).opcode_seq(),
            old(self).witness().submap_of(final(self).witness()),
            Self::step_shape(old(self), final(self)),
            same_status(r, final(self).status_spec()),
            match old(self).opcode_seq()[old(self).ip()] {
                Opcode::BrilligCall { id, outputs, predicate, .. } => predicate_false_spec(
                    old(self).witness(),
                    predicate,
                    old(self).pedantic(),
                    old(self).here(),
                ) == Ok::<bool, OpcodeResolutionError<F>>(false) ==> Self::brillig_run_effect(
                    old(self),
                    final(self),
                    id,
                    outputs@,
                ),
                _ => false,
            },
    {
        self.brillig_solver = Some(solver);
        let ghost mid = *self;
        let r = self.solve_opcode();
        proof {
            assert(mid.witness() == old(self).witness());
            assert(mid.samples() == old(self).samples());
            assert(mid.is_profiling() == old(self).is_profiling());
            assert(mid.pedantic() == old(self).pedantic());
            assert(mid.ip() == old(self).ip());
            assert(mid.opcode_seq() == old(self).opcode_seq());
            assert(Self::brillig_run_effect(&mid, self, 
                old(self).opcode_seq()[old(self).ip()]->BrilligCall_id,
                old(self).opcode_seq()[old(self).ip()]->BrilligCall_outputs@) ==> Self::brillig_run_effect(old(self), self,
                old(self).opcode_seq()[old(self).ip()]->BrilligCall_id,
                old(self).opcode_seq()[old(self).ip()]->BrilligCall_outputs@));
        }
        r
    }
}

} // verus!
