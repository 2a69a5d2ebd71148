use vstd::prelude::*;

use crate::machine::{
    expected_payload, find_payload, is_localized, payload_data, ACVMStatus,
    BlackBoxFunctionSolver, UnconstrainedVm, ACVM,
};
use crate::opcodes::Opcode;
use crate::status_copy::{same_error, same_status};
use crate::errors::OpcodeResolutionError;
use crate::arithmetic::{can_insert, get_value_spec, reduced_constant, reduces_to_const};
use crate::errors::{ErrorSelector, OpcodeLocation};
use crate::expression::Expression;
use crate::field::Field;
use crate::memory_op::{as_witness, memory_op_outcome, MemOp, MemOpKind};
use crate::native_types::Witness;
use crate::opcodes::{AssertionPayload, ExpressionOrMemory};

verus! {

/// Two successful monotone insertions at the same witness insert the same
/// value.
pub proof fn lemma_monotone_insertion<F>(w: Map<u32, F>, x: Witness, v1: F, v2: F)
    requires
        can_insert(w, x, v1),
        can_insert(w.insert(x.0, v1), x, v2),
    ensures
        v1 == v2,
{
}

/// After a block is initialised from `init` under `w0`, a read at an index
/// `i` below its length, with no predicate, assigns the value that the
/// `i`-th init witness had under `w0`.
pub proof fn lemma_read_after_init<F: Field>(
    init: Seq<Witness>,
    w0: Map<u32, F>,
    op: MemOp<F>,
    w: Map<u32, F>,
    i: u32,
    pedantic: bool,
)
    requires
        forall|k: int| 0 <= k < init.len() ==> w0.contains_key(#[trigger] init[k].0),
        (i as int) < init.len(),
        op.operation == MemOpKind::Read,
        as_witness(op.value) is Some,
        !w.contains_key(as_witness(op.value).unwrap().0),
        get_value_spec(op.index, w) is Ok,
        F::to_u32_spec(get_value_spec(op.index, w).unwrap()) == Some(i),
    ensures
        ({
            let block = Seq::new(init.len(), |k: int| w0[init[k].0]);
            memory_op_outcome(block, op, w, None, pedantic) == (
                Ok::<(), crate::errors::OpcodeResolutionError<F>>(()),
                block,
                w.insert(as_witness(op.value).unwrap().0, w0[init[i as int].0]),
            )
        }),
{
}

/// A memory operation whose predicate is zero leaves the block as it was;
/// a write changes nothing, a read assigns zero to its destination.
pub proof fn lemma_memory_predicate_false<F: Field>(
    block: Seq<F>,
    op: MemOp<F>,
    w: Map<u32, F>,
    predicate: Expression<F>,
    pedantic: bool,
)
    requires
        get_value_spec(predicate, w) == Ok::<F, crate::errors::OpcodeResolutionError<F>>(
            F::zero_spec(),
        ),
        op.operation == MemOpKind::Read ==> as_witness(op.value) is Some && can_insert(
            w,
            as_witness(op.value).unwrap(),
            F::zero_spec(),
        ),
    ensures
        ({
            let out = memory_op_outcome(block, op, w, Some(predicate), pedantic);
            &&& out.0 is Ok
            &&& out.1 == block
            &&& op.operation == MemOpKind::Write ==> out.2 == w
            &&& op.operation == MemOpKind::Read ==> out.2 == w.insert(
                as_witness(op.value).unwrap().0,
                F::zero_spec(),
            )
        }),
{
}

/// Two machines in the same state that suspend on a circuit call in one
/// step ask for the same call with the same initial witness.
pub proof fn lemma_acir_call_wait_deterministic<
    'a,
    F: Field,
    B: BlackBoxFunctionSolver<F>,
    V: UnconstrainedVm<F, S>,
    S,
>(
    a0: &ACVM<'a, F, B, V, S>,
    a1: &ACVM<'a, F, B, V, S>,
    b0: &ACVM<'a, F, B, V, S>,
    b1: &ACVM<'a, F, B, V, S>,
)
    requires
        ACVM::step_shape(a0, a1),
        ACVM::step_shape(b0, b1),
        a0.opcode_seq() == b0.opcode_seq(),
        a0.ip() == b0.ip(),
        a0.witness() == b0.witness(),
        a1.status_spec() is RequiresAcirCall,
        b1.status_spec() is RequiresAcirCall,
    ensures
        ({
            let ia = a1.status_spec()->RequiresAcirCall_0;
            let ib = b1.status_spec()->RequiresAcirCall_0;
            ia.id == ib.id && ia.initial_witness@ == ib.initial_witness@
        }),
{
}

/// The values of assertion items that are all expressions reducing to
/// constants.
pub open spec fn constant_items<F: Field>(items: Seq<ExpressionOrMemory<F>>, w: Map<u32, F>) -> bool {
    forall|k: int|
        0 <= k < items.len() ==> match #[trigger] items[k] {
            ExpressionOrMemory::Expression(e) => reduces_to_const(e, w),
            _ => false,
        }
}

pub open spec fn item_value<F: Field>(item: ExpressionOrMemory<F>, w: Map<u32, F>) -> F {
    match item {
        ExpressionOrMemory::Expression(e) => reduced_constant(e, w),
        _ => F::zero_spec(),
    }
}

proof fn lemma_constant_items_data<F: Field>(
    items: Seq<ExpressionOrMemory<F>>,
    w: Map<u32, F>,
    blocks: Map<u32, Seq<F>>,
)
    requires
        constant_items(items, w),
    ensures
        payload_data(items, w, blocks) == Some(items.map_values(|it| item_value(it, w))),
    decreases items.len(),
{
    if items.len() > 0 {
        let init = items.drop_last();
        assert forall|k: int| 0 <= k < init.len() implies match #[trigger] init[k] {
            ExpressionOrMemory::Expression(e) => reduces_to_const(e, w),
            _ => false,
        } by {
            assert(init[k] == items[k]);
        }
        lemma_constant_items_data(init, w, blocks);
        assert(items.last() == items[items.len() - 1]);
        assert(items.map_values(|it| item_value(it, w)) =~= init.map_values(
            |it| item_value(it, w),
        ).push(item_value(items.last(), w)));
    } else {
        assert(items.map_values(|it| item_value(it, w)) =~= seq![]);
    }
}

/// When the payload table holds an entry for `loc` whose items are all
/// expressions that reduce to constants, the resolved payload carries the
/// entry's selector and the items' values, in order.
pub proof fn lemma_payload_round_trip<F: Field>(
    table: Seq<(OpcodeLocation, AssertionPayload<F>)>,
    loc: OpcodeLocation,
    w: Map<u32, F>,
    blocks: Map<u32, Seq<F>>,
)
    requires
        find_payload(table, loc) is Some,
        constant_items(table[find_payload(table, loc).unwrap()].1.payload@, w),
    ensures
        ({
            let entry = table[find_payload(table, loc).unwrap()].1;
            expected_payload(table, loc, w, blocks) == Some(
                (
                    ErrorSelector(entry.error_selector),
                    entry.payload@.map_values(|it| item_value(it, w)),
                ),
            )
        }),
{
    let entry = table[find_payload(table, loc).unwrap()].1;
    lemma_constant_items_data(entry.payload@, w, blocks);
}

proof fn lemma_localized_same<F>(
    e: OpcodeResolutionError<F>,
    a: OpcodeResolutionError<F>,
    b: OpcodeResolutionError<F>,
    loc: OpcodeLocation,
    payload: Option<(ErrorSelector, Seq<F>)>,
)
    requires
        is_localized(e, a, loc, payload),
        is_localized(e, b, loc, payload),
    ensures
        same_error(a, b),
{
}

/// One step of an assertion or a memory opcode is determined by the
/// machine's observable state: two machines that agree on it before the
/// step agree on the witness map, the memory, the instruction pointer and
/// the status after it.
pub proof fn lemma_internal_step_deterministic<
    'a,
    F: Field,
    B: BlackBoxFunctionSolver<F>,
    V: UnconstrainedVm<F, S>,
    S,
>(
    a0: &ACVM<'a, F, B, V, S>,
    a1: &ACVM<'a, F, B, V, S>,
    b0: &ACVM<'a, F, B, V, S>,
    b1: &ACVM<'a, F, B, V, S>,
)
    requires
        ACVM::step_shape(a0, a1),
        ACVM::step_effect(a0, a1),
        ACVM::step_shape(b0, b1),
        ACVM::step_effect(b0, b1),
        a0.opcode_seq() == b0.opcode_seq(),
        a0.ip() == b0.ip(),
        0 <= a0.ip() < a0.opcode_seq().len(),
        a0.witness() == b0.witness(),
        a0.blocks() == b0.blocks(),
        a0.pedantic() == b0.pedantic(),
        a0.payload_table() == b0.payload_table(),
        a0.opcode_seq()[a0.ip()] is AssertZero || a0.opcode_seq()[a0.ip()] is MemoryOp,
    ensures
        a1.witness() == b1.witness(),
        a1.ip() == b1.ip(),
        same_status(a1.status_spec(), b1.status_spec()),
{
    let ip = a0.ip();
    let len = a0.opcode_seq().len() as int;
    let p = a0.payload_at(ip);
    assert(p == b0.payload_at(ip));
    let loc = OpcodeLocation::Acir(ip as usize);
    match a0.opcode_seq()[ip] {
        Opcode::AssertZero(e) => {
            if let (ACVMStatus::Failure(x), ACVMStatus::Failure(y)) = (a1.status_spec(), b1.status_spec()) {
                if crate::arithmetic::only_constant(e, a0.witness()) {
                    lemma_localized_same(crate::arithmetic::unsatisfied::<F>(), x, y, loc, p);
                }
            }
        },
        Opcode::MemoryOp { block_id, op, predicate } => {
            if a0.blocks().contains_key(block_id.0) {
                let out = memory_op_outcome(a0.blocks()[block_id.0], op, a0.witness(), predicate, a0.pedantic());
                if let (ACVMStatus::Failure(x), ACVMStatus::Failure(y)) = (a1.status_spec(), b1.status_spec()) {
                    if let Err(err) = out.0 {
                        lemma_localized_same(err, x, y, loc, p);
                    }
                }
            }
        },
        _ => {},
    }
}

} // verus!
