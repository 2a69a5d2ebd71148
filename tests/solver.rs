use acvm::errors::{
    AcirFunctionId, BlackBoxFunc, BlackBoxResolutionError, BlockId, BrilligFunctionId,
    ErrorLocation, ErrorSelector, OpcodeLocation, OpcodeNotSolvable, OpcodeResolutionError,
    ResolvedAssertionPayload,
};
use acvm::expression::Expression;
use acvm::field::Field;
use acvm::machine::{write_brillig_outputs, write_black_box_outputs, BranchToFeatureMap, StepResult};
use acvm::memory_op::{MemOp, MemOpKind};
use acvm::native_types::{Witness, WitnessMap};
use acvm::opcodes::{
    circuit_is_well_formed, AssertionPayload, BlackBoxFuncCall, BrilligInputs, ConstantOrWitnessEnum, ExpressionOrMemory,
    FunctionInput, Opcode,
};
use acvm::{
    get_value, input_to_value, insert_value, is_predicate_false, witness_to_value,
    BlackBoxFunctionSolver, BrilligSolverStatus, ForeignCallParam, ForeignCallResult,
    ForeignCallWaitInfo, UnconstrainedVm, ACVMStatus, ACVM,
};

const P: u64 = 2_147_483_647;

/// The prime field of order 2^31 - 1.
#[derive(Clone, Copy, Debug, PartialEq, Eq)]
struct Fp(u64);

fn pow(mut b: u64, mut e: u64) -> u64 {
    let mut r = 1u64;
    b %= P;
    while e > 0 {
        if e & 1 == 1 {
            r = r * b % P;
        }
        b = b * b % P;
        e >>= 1;
    }
    r
}

impl Field for Fp {
    fn zero_spec() -> Self {
        Fp(0)
    }
    fn one_spec() -> Self {
        Fp(1)
    }
    fn add_spec(a: Self, b: Self) -> Self {
        a.add(&b)
    }
    fn mul_spec(a: Self, b: Self) -> Self {
        a.mul(&b)
    }
    fn neg_spec(a: Self) -> Self {
        a.neg()
    }
    fn div_spec(a: Self, b: Self) -> Self {
        a.div(&b)
    }
    fn num_bits_spec(a: Self) -> u32 {
        a.num_bits()
    }
    fn decimal_spec(a: Self) -> String {
        a.to_decimal_string()
    }
    fn to_u32_spec(a: Self) -> Option<u32> {
        a.try_to_u32()
    }
    fn zero() -> Self {
        Fp(0)
    }
    fn one() -> Self {
        Fp(1)
    }
    fn add(&self, other: &Self) -> Self {
        Fp((self.0 + other.0) % P)
    }
    fn mul(&self, other: &Self) -> Self {
        Fp(self.0 * other.0 % P)
    }
    fn neg(&self) -> Self {
        Fp((P - self.0) % P)
    }
    fn div(&self, other: &Self) -> Self {
        Fp(self.0 * pow(other.0, P - 2) % P)
    }
    fn equals(&self, other: &Self) -> bool {
        self.0 == other.0
    }
    fn is_zero(&self) -> bool {
        self.0 == 0
    }
    fn is_one(&self) -> bool {
        self.0 == 1
    }
    fn num_bits(&self) -> u32 {
        64 - self.0.leading_zeros()
    }
    fn try_to_u32(&self) -> Option<u32> {
        u32::try_from(self.0).ok()
    }
    fn to_decimal_string(&self) -> String {
        self.0.to_string()
    }
}

fn f(v: u64) -> Fp {
    Fp(v % P)
}

fn minus(v: u64) -> Fp {
    Fp(P - v)
}

fn w(i: u32) -> Witness {
    Witness(i)
}

fn wexpr(i: u32) -> Expression<Fp> {
    Expression::from_witness(Witness(i))
}

fn cexpr(v: u64) -> Expression<Fp> {
    Expression::from_constant(f(v))
}

fn linear(terms: &[(u64, u32)], c: Fp) -> Expression<Fp> {
    Expression {
        mul_terms: vec![],
        linear_combinations: terms.iter().map(|&(a, x)| (f(a), Witness(x))).collect(),
        q_c: c,
    }
}

fn witnesses(pairs: &[(u32, u64)]) -> WitnessMap<Fp> {
    let mut m = WitnessMap::new();
    for &(k, v) in pairs {
        m.insert(Witness(k), f(v));
    }
    m
}

/// A backend that sums its inputs into its first output and doubles the
/// sum into its second; function 99 always fails.
struct SumBackend {
    pedantic: bool,
}

impl BlackBoxFunctionSolver<Fp> for SumBackend {
    fn pedantic_solving(&self) -> bool {
        self.pedantic
    }
    fn solve_black_box(
        &self,
        func: BlackBoxFunc,
        inputs: &Vec<Fp>,
    ) -> Result<Vec<Fp>, BlackBoxResolutionError> {
        if func.0 == 99 {
            return Err(BlackBoxResolutionError::Failed(func, "unsupported".to_string()));
        }
        if func.0 == 98 {
            return Err(BlackBoxResolutionError::AssertFailed("bad input".to_string()));
        }
        let s = inputs.iter().fold(Fp(0), |a, b| a.add(b));
        Ok(vec![s, s.add(&s)])
    }
}

fn backend() -> SumBackend {
    SumBackend { pedantic: false }
}

/// An interpreter whose function 0 asks the host for a value and returns
/// the sum of its inputs and that value; function 1 returns its inputs
/// reversed; function 2 fails.
struct TestVm;

struct TestCall {
    function: u32,
    inputs: Vec<Fp>,
    answer: Option<Fp>,
    asked: bool,
}

impl UnconstrainedVm<Fp, TestCall> for TestVm {
    fn new_call(
        &self,
        function_id: BrilligFunctionId,
        inputs: Vec<Fp>,
        _acir_index: usize,
        _profiling_active: bool,
        _branch_to_feature_map: Option<&BranchToFeatureMap>,
    ) -> TestCall {
        TestCall { function: function_id.0, inputs, answer: None, asked: false }
    }

    fn solve(
        &self,
        solver: &mut TestCall,
    ) -> Result<BrilligSolverStatus<Fp>, OpcodeResolutionError<Fp>> {
        match solver.function {
            0 if solver.answer.is_none() => {
                solver.asked = true;
                Ok(BrilligSolverStatus::ForeignCallWait(ForeignCallWaitInfo {
                    function: "oracle".to_string(),
                    inputs: vec![ForeignCallParam::Array(solver.inputs.clone())],
                }))
            }
            2 => Err(OpcodeResolutionError::BrilligFunctionFailed {
                function_id: BrilligFunctionId(2),
                call_stack: vec![OpcodeLocation::Brillig { acir_index: 0, brillig_index: 3 }],
                payload: None,
            }),
            _ => Ok(BrilligSolverStatus::Finished),
        }
    }

    fn resolve_pending_foreign_call(&self, solver: &mut TestCall, result: ForeignCallResult<Fp>) {
        if let Some(ForeignCallParam::Single(v)) = result.values.first() {
            solver.answer = Some(*v);
        }
    }

    fn return_values(&self, solver: &TestCall) -> Vec<Fp> {
        match solver.function {
            0 => {
                let s = solver.inputs.iter().fold(Fp(0), |a, b| a.add(b));
                vec![s.add(&solver.answer.unwrap_or(Fp(0)))]
            }
            _ => solver.inputs.iter().rev().cloned().collect(),
        }
    }

    fn profiling_call_stacks(&self, _solver: &TestCall) -> Vec<Vec<usize>> {
        vec![vec![4, 7]]
    }

    fn fuzzing_trace(&self, _solver: &TestCall) -> Vec<u32> {
        vec![1, 2, 3]
    }
}

fn run(opcodes: &[Opcode<Fp>], initial: WitnessMap<Fp>) -> (ACVMStatus<Fp>, WitnessMap<Fp>) {
    let b = backend();
    let vm = TestVm;
    let payloads: Vec<(OpcodeLocation, AssertionPayload<Fp>)> = vec![];
    let mut acvm = ACVM::new(&b, opcodes, initial, &vm, &payloads);
    let status = acvm.solve();
    (status, acvm.witness_map().clone())
}

#[test]
fn solves_assert_zero_with_one_unknown() {
    let opcodes = vec![Opcode::AssertZero(linear(&[(1, 1), (2, 2)], minus(7)))];
    let b = backend();
    let vm = TestVm;
    let payloads = vec![];
    let mut acvm = ACVM::new(&b, &opcodes, witnesses(&[(1, 3)]), &vm, &payloads);
    assert_eq!(acvm.solve(), ACVMStatus::Solved);
    let map = acvm.finalize();
    assert_eq!(map, witnesses(&[(1, 3), (2, 2)]));
}

#[test]
fn unsatisfied_constant_fails_at_its_opcode() {
    let (status, _) = run(&[Opcode::AssertZero(cexpr(5))], WitnessMap::new());
    assert_eq!(
        status,
        ACVMStatus::Failure(OpcodeResolutionError::UnsatisfiedConstrain {
            opcode_location: ErrorLocation::Resolved(OpcodeLocation::Acir(0)),
            payload: None,
        })
    );
}

fn read_op(index: u64, dest: u32) -> Opcode<Fp> {
    Opcode::MemoryOp {
        block_id: BlockId(0),
        op: MemOp { operation: MemOpKind::Read, index: cexpr(index), value: wexpr(dest) },
        predicate: None,
    }
}

fn init_op(ws: &[u32]) -> Opcode<Fp> {
    Opcode::MemoryInit { block_id: BlockId(0), init: ws.iter().map(|&i| Witness(i)).collect() }
}

#[test]
fn memory_read_returns_init_value() {
    let (status, map) = run(&[init_op(&[1, 2]), read_op(1, 3)], witnesses(&[(1, 10), (2, 42)]));
    assert_eq!(status, ACVMStatus::Solved);
    assert_eq!(map.get(&w(3)), Some(f(42)));
}

#[test]
fn memory_index_out_of_bounds() {
    let (status, _) = run(&[init_op(&[1, 2]), read_op(5, 3)], witnesses(&[(1, 10), (2, 42)]));
    assert_eq!(
        status,
        ACVMStatus::Failure(OpcodeResolutionError::IndexOutOfBounds {
            opcode_location: ErrorLocation::Resolved(OpcodeLocation::Acir(1)),
            index: f(5),
            array_size: 2,
        })
    );
}

#[test]
fn memory_write_then_read() {
    let write = Opcode::MemoryOp {
        block_id: BlockId(0),
        op: MemOp { operation: MemOpKind::Write, index: cexpr(0), value: cexpr(77) },
        predicate: None,
    };
    let (status, map) =
        run(&[init_op(&[1, 2]), write, read_op(0, 5)], witnesses(&[(1, 10), (2, 42)]));
    assert_eq!(status, ACVMStatus::Solved);
    assert_eq!(map.get(&w(5)), Some(f(77)));
}

#[test]
fn memory_read_with_false_predicate_writes_zero() {
    let op = Opcode::MemoryOp {
        block_id: BlockId(0),
        op: MemOp { operation: MemOpKind::Read, index: cexpr(9), value: wexpr(3) },
        predicate: Some(wexpr(4)),
    };
    let (status, map) = run(&[init_op(&[1]), op], witnesses(&[(1, 10), (4, 0)]));
    assert_eq!(status, ACVMStatus::Solved);
    assert_eq!(map.get(&w(3)), Some(f(0)));
}

#[test]
fn memory_op_on_unknown_block() {
    let (status, _) = run(&[read_op(0, 3)], WitnessMap::new());
    assert_eq!(
        status,
        ACVMStatus::Failure(OpcodeResolutionError::OpcodeNotSolvable(
            OpcodeNotSolvable::MissingMemoryBlock(0)
        ))
    );
}

#[test]
fn memory_init_missing_witness() {
    let (status, _) = run(&[init_op(&[1, 2])], witnesses(&[(1, 10)]));
    assert_eq!(
        status,
        ACVMStatus::Failure(OpcodeResolutionError::OpcodeNotSolvable(
            OpcodeNotSolvable::MissingAssignment(2)
        ))
    );
}

#[test]
fn pedantic_predicate_larger_than_one() {
    let op = Opcode::MemoryOp {
        block_id: BlockId(0),
        op: MemOp { operation: MemOpKind::Read, index: cexpr(0), value: wexpr(3) },
        predicate: Some(cexpr(2)),
    };
    let opcodes = vec![init_op(&[1]), op];
    let b = SumBackend { pedantic: true };
    let vm = TestVm;
    let payloads = vec![];
    let mut acvm = ACVM::new(&b, &opcodes, witnesses(&[(1, 10)]), &vm, &payloads);
    assert_eq!(
        acvm.solve(),
        ACVMStatus::Failure(OpcodeResolutionError::PredicateLargerThanOne {
            opcode_location: ErrorLocation::Unresolved,
            pred_value: f(2),
        })
    );
}

fn call_op(id: u32, predicate: Option<Expression<Fp>>) -> Opcode<Fp> {
    Opcode::Call {
        id: AcirFunctionId(id),
        inputs: vec![w(1)],
        outputs: vec![w(2), w(3)],
        predicate,
    }
}

#[test]
fn call_with_false_predicate_zeroes_outputs() {
    let (status, map) = run(&[call_op(7, Some(wexpr(4)))], witnesses(&[(1, 9), (4, 0)]));
    assert_eq!(status, ACVMStatus::Solved);
    assert_eq!(map.get(&w(2)), Some(f(0)));
    assert_eq!(map.get(&w(3)), Some(f(0)));
}

#[test]
fn call_round_trip() {
    let opcodes = vec![call_op(7, None)];
    let b = backend();
    let vm = TestVm;
    let payloads = vec![];
    let mut acvm = ACVM::new(&b, &opcodes, witnesses(&[(1, 9)]), &vm, &payloads);
    match acvm.solve() {
        ACVMStatus::RequiresAcirCall(info) => {
            assert_eq!(info.id, AcirFunctionId(7));
            assert_eq!(info.initial_witness, witnesses(&[(0, 9)]));
        }
        other => panic!("unexpected status {:?}", other),
    }
    acvm.resolve_pending_acir_call(vec![f(5), f(6)]);
    assert_eq!(acvm.solve(), ACVMStatus::Solved);
    assert_eq!(acvm.witness_map().get(&w(2)), Some(f(5)));
    assert_eq!(acvm.witness_map().get(&w(3)), Some(f(6)));
}

#[test]
fn call_wait_info_is_deterministic() {
    let opcodes = vec![call_op(7, None)];
    let b = backend();
    let vm = TestVm;
    let payloads = vec![];
    let mut a = ACVM::new(&b, &opcodes, witnesses(&[(1, 9)]), &vm, &payloads);
    let mut c = ACVM::new(&b, &opcodes, witnesses(&[(1, 9)]), &vm, &payloads);
    assert_eq!(a.solve(), c.solve());
}

#[test]
fn call_outputs_mismatch() {
    let opcodes = vec![call_op(7, None)];
    let b = backend();
    let vm = TestVm;
    let payloads = vec![];
    let mut acvm = ACVM::new(&b, &opcodes, witnesses(&[(1, 9)]), &vm, &payloads);
    acvm.solve();
    acvm.resolve_pending_acir_call(vec![f(5)]);
    assert_eq!(
        acvm.solve(),
        ACVMStatus::Failure(OpcodeResolutionError::AcirCallOutputsMismatch {
            opcode_location: ErrorLocation::Resolved(OpcodeLocation::Acir(0)),
            results_size: 1,
            outputs_size: 2,
        })
    );
}

#[test]
fn call_of_main_is_refused() {
    let (status, _) = run(&[call_op(0, None)], witnesses(&[(1, 9)]));
    assert_eq!(
        status,
        ACVMStatus::Failure(OpcodeResolutionError::AcirMainCallAttempted {
            opcode_location: ErrorLocation::Resolved(OpcodeLocation::Acir(0)),
        })
    );
}

fn brillig_op(id: u32, predicate: Option<Expression<Fp>>, outputs: Vec<Witness>) -> Opcode<Fp> {
    Opcode::BrilligCall {
        id: BrilligFunctionId(id),
        inputs: vec![BrilligInputs::Single(wexpr(1)), BrilligInputs::Single(cexpr(4))],
        outputs,
        predicate,
    }
}

#[test]
fn foreign_call_round_trip() {
    let opcodes = vec![brillig_op(0, None, vec![w(2)])];
    let b = backend();
    let vm = TestVm;
    let payloads = vec![];
    let mut acvm = ACVM::new(&b, &opcodes, witnesses(&[(1, 3)]), &vm, &payloads);
    match acvm.solve() {
        ACVMStatus::RequiresForeignCall(info) => {
            assert_eq!(info.function, "oracle");
            assert_eq!(info.inputs, vec![ForeignCallParam::Array(vec![f(3), f(4)])]);
        }
        other => panic!("unexpected status {:?}", other),
    }
    assert!(acvm.get_pending_foreign_call().is_some());
    acvm.resolve_pending_foreign_call(ForeignCallResult {
        values: vec![ForeignCallParam::Single(f(100))],
    });
    assert_eq!(acvm.solve(), ACVMStatus::Solved);
    assert_eq!(acvm.witness_map().get(&w(2)), Some(f(107)));
}

#[test]
fn brillig_call_with_false_predicate_zeroes_outputs() {
    let opcodes = vec![brillig_op(1, Some(cexpr(0)), vec![w(2), w(3)])];
    let (status, map) = run(&opcodes, witnesses(&[(1, 3)]));
    assert_eq!(status, ACVMStatus::Solved);
    assert_eq!(map.get(&w(2)), Some(f(0)));
    assert_eq!(map.get(&w(3)), Some(f(0)));
}

#[test]
fn brillig_call_writes_outputs_and_profiles() {
    let opcodes = vec![brillig_op(1, None, vec![w(2), w(3)])];
    let b = backend();
    let vm = TestVm;
    let payloads = vec![];
    let map = BranchToFeatureMap { entries: vec![] };
    let mut acvm = ACVM::new(&b, &opcodes, witnesses(&[(1, 3)]), &vm, &payloads);
    acvm.with_profiler(true);
    acvm.with_brillig_fuzzing(Some(&map));
    assert_eq!(acvm.solve(), ACVMStatus::Solved);
    assert_eq!(acvm.witness_map().get(&w(2)), Some(f(4)));
    assert_eq!(acvm.witness_map().get(&w(3)), Some(f(3)));
    assert_eq!(acvm.get_brillig_fuzzing_trace(), Some(vec![1, 2, 3]));
    let samples = acvm.take_profiling_samples();
    assert_eq!(samples.len(), 1);
    assert_eq!(
        samples[0].call_stack,
        vec![
            OpcodeLocation::Acir(0),
            OpcodeLocation::Brillig { acir_index: 0, brillig_index: 4 },
            OpcodeLocation::Brillig { acir_index: 0, brillig_index: 7 },
        ]
    );
    assert_eq!(samples[0].brillig_function_id, Some(BrilligFunctionId(1)));
    assert!(acvm.take_profiling_samples().is_empty());
}

#[test]
fn brillig_failure_passes_through() {
    let opcodes = vec![brillig_op(2, None, vec![w(2)])];
    let (status, _) = run(&opcodes, witnesses(&[(1, 3)]));
    assert_eq!(
        status,
        ACVMStatus::Failure(OpcodeResolutionError::BrilligFunctionFailed {
            function_id: BrilligFunctionId(2),
            call_stack: vec![OpcodeLocation::Brillig { acir_index: 0, brillig_index: 3 }],
            payload: None,
        })
    );
}

#[test]
fn step_into_brillig_and_finish() {
    let opcodes = vec![brillig_op(1, None, vec![w(2), w(3)])];
    let b = backend();
    let vm = TestVm;
    let payloads = vec![];
    let mut acvm = ACVM::new(&b, &opcodes, witnesses(&[(1, 3)]), &vm, &payloads);
    match acvm.step_into_brillig() {
        StepResult::IntoBrillig(call) => {
            assert_eq!(call.inputs, vec![f(3), f(4)]);
            assert_eq!(acvm.finish_brillig_with_solver(call), ACVMStatus::Solved);
        }
        StepResult::Status(s) => panic!("unexpected status {:?}", s),
    }
    assert_eq!(acvm.witness_map().get(&w(3)), Some(f(3)));
}

fn bb_call(func: u32, inputs: Vec<FunctionInput<Fp>>, outputs: Vec<Witness>) -> Opcode<Fp> {
    Opcode::BlackBoxFuncCall(BlackBoxFuncCall { name: BlackBoxFunc(func), inputs, outputs })
}

fn input_w(i: u32, bits: u32) -> FunctionInput<Fp> {
    FunctionInput { input: ConstantOrWitnessEnum::Witness(Witness(i)), num_bits: bits }
}

#[test]
fn blackbox_call_assigns_outputs() {
    let inputs = vec![input_w(1, 8), FunctionInput { input: ConstantOrWitnessEnum::Constant(f(5)), num_bits: 8 }];
    let (status, map) = run(&[bb_call(1, inputs, vec![w(2), w(3)])], witnesses(&[(1, 6)]));
    assert_eq!(status, ACVMStatus::Solved);
    assert_eq!(map.get(&w(2)), Some(f(11)));
    assert_eq!(map.get(&w(3)), Some(f(22)));
}

#[test]
fn blackbox_input_too_wide() {
    let (status, _) = run(&[bb_call(1, vec![input_w(1, 2)], vec![w(2), w(3)])], witnesses(&[(1, 6)]));
    match status {
        ACVMStatus::Failure(OpcodeResolutionError::InvalidInputBitSize {
            opcode_location,
            invalid_input_bit_size,
        }) => {
            assert_eq!(opcode_location, ErrorLocation::Resolved(OpcodeLocation::Acir(0)));
            assert_eq!(invalid_input_bit_size.value, "6");
            assert_eq!(invalid_input_bit_size.value_num_bits, 3);
            assert_eq!(invalid_input_bit_size.max_bits, 2);
        }
        other => panic!("unexpected status {:?}", other),
    }
}

#[test]
fn blackbox_failure_and_assertion() {
    let (status, _) = run(&[bb_call(99, vec![], vec![])], WitnessMap::new());
    assert_eq!(
        status,
        ACVMStatus::Failure(OpcodeResolutionError::BlackBoxFunctionFailed(
            BlackBoxFunc(99),
            "unsupported".to_string()
        ))
    );
    let (status, _) = run(&[bb_call(98, vec![], vec![])], WitnessMap::new());
    assert_eq!(
        status,
        ACVMStatus::Failure(OpcodeResolutionError::UnsatisfiedConstrain {
            opcode_location: ErrorLocation::Resolved(OpcodeLocation::Acir(0)),
            payload: None,
        })
    );
}

#[test]
fn blackbox_output_count_mismatch() {
    let (status, _) = run(&[bb_call(1, vec![], vec![w(2)])], WitnessMap::new());
    assert!(matches!(
        status,
        ACVMStatus::Failure(OpcodeResolutionError::BlackBoxFunctionFailed(BlackBoxFunc(1), _))
    ));
}

#[test]
fn assertion_payload_is_resolved() {
    let opcodes = vec![init_op(&[1, 2]), Opcode::AssertZero(linear(&[(1, 1)], Fp(0)))];
    let payloads = vec![(
        OpcodeLocation::Acir(1),
        AssertionPayload {
            error_selector: 42,
            payload: vec![
                ExpressionOrMemory::Expression(linear(&[(2, 1)], f(1))),
                ExpressionOrMemory::Memory(BlockId(0)),
            ],
        },
    )];
    let b = backend();
    let vm = TestVm;
    let mut acvm = ACVM::new(&b, &opcodes, witnesses(&[(1, 10), (2, 20)]), &vm, &payloads);
    match acvm.solve() {
        ACVMStatus::Failure(OpcodeResolutionError::UnsatisfiedConstrain {
            opcode_location,
            payload: Some(ResolvedAssertionPayload::Raw(raw)),
        }) => {
            assert_eq!(opcode_location, ErrorLocation::Resolved(OpcodeLocation::Acir(1)));
            assert_eq!(raw.selector, ErrorSelector(42));
            assert_eq!(raw.data, vec![f(21), f(10), f(20)]);
        }
        other => panic!("unexpected status {:?}", other),
    }
}

#[test]
fn assertion_payload_absent_when_item_unresolved() {
    let opcodes = vec![Opcode::AssertZero(cexpr(1))];
    let payloads = vec![(
        OpcodeLocation::Acir(0),
        AssertionPayload { error_selector: 1, payload: vec![ExpressionOrMemory::Expression(wexpr(9))] },
    )];
    let b = backend();
    let vm = TestVm;
    let mut acvm = ACVM::new(&b, &opcodes, WitnessMap::new(), &vm, &payloads);
    assert_eq!(
        acvm.solve(),
        ACVMStatus::Failure(OpcodeResolutionError::UnsatisfiedConstrain {
            opcode_location: ErrorLocation::Resolved(OpcodeLocation::Acir(0)),
            payload: None,
        })
    );
}

#[test]
fn too_many_unknowns() {
    let e = linear(&[(1, 1), (1, 2)], f(3));
    let (status, _) = run(&[Opcode::AssertZero(e.clone())], WitnessMap::new());
    assert_eq!(
        status,
        ACVMStatus::Failure(OpcodeResolutionError::OpcodeNotSolvable(
            OpcodeNotSolvable::ExpressionHasTooManyUnknowns(e)
        ))
    );
}

#[test]
fn product_term_with_known_factor_is_solved() {
    // 3·w1·w2 + w3 - 12 = 0 with w1 = 2, w3 = 0 gives w2 = 2.
    let e = Expression {
        mul_terms: vec![(f(3), w(1), w(2))],
        linear_combinations: vec![(f(1), w(3))],
        q_c: minus(12),
    };
    let (status, map) = run(&[Opcode::AssertZero(e)], witnesses(&[(1, 2), (3, 0)]));
    assert_eq!(status, ACVMStatus::Solved);
    assert_eq!(map.get(&w(2)), Some(f(2)));
}

#[test]
fn empty_circuit_is_solved() {
    let opcodes: Vec<Opcode<Fp>> = vec![];
    let b = backend();
    let vm = TestVm;
    let payloads = vec![];
    let acvm = ACVM::new(&b, &opcodes, WitnessMap::new(), &vm, &payloads);
    assert_eq!(acvm.get_status(), &ACVMStatus::Solved);
    assert_eq!(acvm.instruction_pointer(), 0);
    assert!(acvm.opcodes().is_empty());
}

#[test]
fn solve_opcode_steps_one_at_a_time() {
    let opcodes = vec![
        Opcode::AssertZero(linear(&[(1, 1)], minus(4))),
        Opcode::AssertZero(linear(&[(1, 2)], minus(5))),
    ];
    let b = backend();
    let vm = TestVm;
    let payloads = vec![];
    let mut acvm = ACVM::new(&b, &opcodes, WitnessMap::new(), &vm, &payloads);
    assert_eq!(acvm.solve_opcode(), ACVMStatus::InProgress);
    assert_eq!(acvm.instruction_pointer(), 1);
    assert_eq!(acvm.solve_opcode(), ACVMStatus::Solved);
    assert_eq!(acvm.instruction_pointer(), 2);
    assert_eq!(acvm.finalize(), witnesses(&[(1, 4), (2, 5)]));
}

#[test]
fn overwrite_witness_replaces_value() {
    let opcodes = vec![Opcode::AssertZero(cexpr(0))];
    let b = backend();
    let vm = TestVm;
    let payloads = vec![];
    let mut acvm = ACVM::new(&b, &opcodes, witnesses(&[(1, 4)]), &vm, &payloads);
    assert_eq!(acvm.overwrite_witness(w(1), f(8)), Some(f(4)));
    assert_eq!(acvm.witness_map().get(&w(1)), Some(f(8)));
}

#[test]
fn insert_value_is_monotone() {
    let mut m = witnesses(&[(1, 4)]);
    assert!(insert_value(&w(1), f(4), &mut m).is_ok());
    assert!(insert_value(&w(2), f(7), &mut m).is_ok());
    assert_eq!(
        insert_value(&w(1), f(5), &mut m),
        Err(OpcodeResolutionError::UnsatisfiedConstrain {
            opcode_location: ErrorLocation::Unresolved,
            payload: None,
        })
    );
    assert_eq!(m.get(&w(1)), Some(f(4)));
    assert_eq!(m.get(&w(2)), Some(f(7)));
}

#[test]
fn get_value_reports_missing_witness() {
    let m = witnesses(&[(1, 4)]);
    assert_eq!(get_value(&linear(&[(3, 1)], f(1)), &m), Ok(f(13)));
    assert_eq!(
        get_value(&linear(&[(1, 1), (1, 7)], f(0)), &m),
        Err(OpcodeResolutionError::OpcodeNotSolvable(OpcodeNotSolvable::MissingAssignment(7)))
    );
    assert_eq!(witness_to_value(&m, w(1)), Ok(f(4)));
    assert_eq!(
        witness_to_value(&m, w(2)),
        Err(OpcodeResolutionError::OpcodeNotSolvable(OpcodeNotSolvable::MissingAssignment(2)))
    );
}

#[test]
fn input_to_value_checks_width() {
    let m = witnesses(&[(1, 255)]);
    assert_eq!(input_to_value(&m, input_w(1, 8), false), Ok(f(255)));
    assert!(input_to_value(&m, input_w(1, 7), false).is_err());
    assert_eq!(input_to_value(&m, input_w(1, 7), true), Ok(f(255)));
}

#[test]
fn predicate_checks() {
    let m = witnesses(&[(1, 0), (2, 1), (3, 2)]);
    let loc = ErrorLocation::Resolved(OpcodeLocation::Acir(3));
    assert_eq!(is_predicate_false(&m, &None, true, &loc), Ok(false));
    assert_eq!(is_predicate_false(&m, &Some(wexpr(1)), true, &loc), Ok(true));
    assert_eq!(is_predicate_false(&m, &Some(wexpr(2)), true, &loc), Ok(false));
    assert_eq!(is_predicate_false(&m, &Some(wexpr(3)), false, &loc), Ok(false));
    assert_eq!(
        is_predicate_false(&m, &Some(wexpr(3)), true, &loc),
        Err(OpcodeResolutionError::PredicateLargerThanOne { opcode_location: loc, pred_value: f(2) })
    );
}

#[test]
fn blackbox_errors_convert() {
    let e: OpcodeResolutionError<Fp> =
        OpcodeResolutionError::from(BlackBoxResolutionError::AssertFailed("m".to_string()));
    assert_eq!(
        e,
        OpcodeResolutionError::UnsatisfiedConstrain {
            opcode_location: ErrorLocation::Unresolved,
            payload: Some(ResolvedAssertionPayload::String("m".to_string())),
        }
    );
}

#[test]
fn status_descriptions() {
    assert_eq!(ACVMStatus::<Fp>::Solved.to_string(), "Solved");
    assert_eq!(ACVMStatus::<Fp>::InProgress.to_string(), "In progress");
}

#[test]
fn conflicting_assignment_fails_at_second_opcode() {
    let opcodes = vec![
        Opcode::AssertZero(linear(&[(1, 1)], minus(4))),
        Opcode::AssertZero(linear(&[(1, 2)], minus(5))),
        Opcode::Call { id: AcirFunctionId(3), inputs: vec![], outputs: vec![w(1)], predicate: Some(cexpr(0)) },
    ];
    let (status, map) = run(&opcodes, WitnessMap::new());
    assert_eq!(
        status,
        ACVMStatus::Failure(OpcodeResolutionError::UnsatisfiedConstrain {
            opcode_location: ErrorLocation::Resolved(OpcodeLocation::Acir(2)),
            payload: None,
        })
    );
    assert_eq!(map.get(&w(1)), Some(f(4)));
}

#[test]
fn well_formedness_of_circuits() {
    let good = vec![init_op(&[1]), read_op(0, 2)];
    assert!(circuit_is_well_formed(&good));
    let bad = vec![Opcode::MemoryOp {
        block_id: BlockId(0),
        op: MemOp { operation: MemOpKind::Read, index: cexpr(0), value: linear(&[(2, 3)], Fp(0)) },
        predicate: None,
    }];
    assert!(!circuit_is_well_formed(&bad));
}

#[test]
fn status_copy_is_equal() {
    let s: ACVMStatus<Fp> = ACVMStatus::Failure(OpcodeResolutionError::BrilligFunctionFailed {
        function_id: BrilligFunctionId(1),
        call_stack: vec![OpcodeLocation::Acir(2)],
        payload: Some(ResolvedAssertionPayload::String("x".to_string())),
    });
    assert_eq!(s.copy(), s);
}

#[test]
fn brillig_outputs_are_written_or_counted() {
    let mut m = witnesses(&[(1, 3)]);
    assert_eq!(
        write_brillig_outputs(&mut m, BrilligFunctionId(5), 2, &vec![w(2), w(3)], &vec![f(1)]),
        Err(OpcodeResolutionError::BrilligFunctionFailed {
            function_id: BrilligFunctionId(5),
            call_stack: vec![OpcodeLocation::Acir(2)],
            payload: None,
        })
    );
    assert_eq!(m, witnesses(&[(1, 3)]));
    assert!(write_brillig_outputs(&mut m, BrilligFunctionId(5), 2, &vec![w(2), w(3)], &vec![f(1), f(2)]).is_ok());
    assert_eq!(m, witnesses(&[(1, 3), (2, 1), (3, 2)]));
    assert!(write_brillig_outputs(&mut m, BrilligFunctionId(5), 2, &vec![w(1)], &vec![f(9)]).is_err());
}

#[test]
fn black_box_outputs_are_written_or_counted() {
    let mut m = WitnessMap::new();
    assert!(matches!(
        write_black_box_outputs(&mut m, BlackBoxFunc(4), &vec![w(2)], &vec![]),
        Err(OpcodeResolutionError::BlackBoxFunctionFailed(BlackBoxFunc(4), _))
    ));
    assert!(write_black_box_outputs(&mut m, BlackBoxFunc(4), &vec![w(2)], &vec![f(6)]).is_ok());
    assert_eq!(m.get(&w(2)), Some(f(6)));
}

#[test]
fn call_with_missing_input_names_first_missing() {
    let opcodes = vec![Opcode::Call {
        id: AcirFunctionId(2),
        inputs: vec![w(1), w(5), w(6)],
        outputs: vec![],
        predicate: None,
    }];
    let (status, _) = run(&opcodes, witnesses(&[(1, 9)]));
    assert_eq!(
        status,
        ACVMStatus::Failure(OpcodeResolutionError::OpcodeNotSolvable(
            OpcodeNotSolvable::MissingAssignment(5)
        ))
    );
}

#[test]
fn step_into_brillig_with_false_predicate_solves_opcode() {
    let opcodes = vec![brillig_op(1, Some(cexpr(0)), vec![w(2)])];
    let b = backend();
    let vm = TestVm;
    let payloads = vec![];
    let mut acvm = ACVM::new(&b, &opcodes, witnesses(&[(1, 3)]), &vm, &payloads);
    match acvm.step_into_brillig() {
        StepResult::Status(s) => assert_eq!(s, ACVMStatus::Solved),
        StepResult::IntoBrillig(_) => panic!("the call is skipped"),
    }
    assert_eq!(acvm.witness_map().get(&w(2)), Some(f(0)));
}
