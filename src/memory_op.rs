use vstd::prelude::*;

use crate::arithmetic::{
    can_insert, get_value, get_value_spec, insert_value, unsatisfied, witness_to_value,
};
use crate::errors::{ErrorLocation, OpcodeNotSolvable, OpcodeResolutionError};
use crate::expression::Expression;
use crate::field::Field;
use crate::native_types::{Witness, WitnessMap};

verus! {

#[derive(Clone, Copy, Debug, PartialEq, Eq, Structural)]
pub enum MemOpKind {
    Read,
    Write,
}

/// A read of `block[index]` into the witness of `value`, or a write of the
/// value of `value` to `block[index]`.
#[derive(Clone, Debug, PartialEq, Eq)]
pub struct MemOp<F> {
    pub operation: MemOpKind,
    pub index: Expression<F>,
    pub value: Expression<F>,
}

/// The witness that `e` is, when `e` is exactly `1·w`.
pub open spec fn as_witness<F: Field>(e: Expression<F>) -> Option<Witness> {
    if e.mul_terms@.len() == 0 && e.linear_combinations@.len() == 1 && e.linear_combinations@[0].0
        == F::one_spec() && e.q_c == F::zero_spec() {
        Some(e.linear_combinations@[0].1)
    } else {
        None
    }
}

impl<F: Field> Expression<F> {
    pub fn to_witness(&self) -> (r: Option<Witness>)
        ensures
            r == as_witness(*self),
    {
        if self.mul_terms.len() == 0 && self.linear_combinations.len() == 1
            && self.linear_combinations[0].0.is_one() && self.q_c.is_zero() {
            Some(self.linear_combinations[0].1)
        } else {
            None
        }
    }
}

/// A read names the witness it reads into.
pub open spec fn mem_op_well_formed<F: Field>(op: MemOp<F>) -> bool {
    op.operation == MemOpKind::Read ==> as_witness(op.value) is Some
}

/// One memory block: `block_len` values, all present.
pub struct MemoryOpSolver<F> {
    pub block_value: Vec<F>,
    pub block_len: u32,
}

/// The value of an optional predicate: `None` when there is none.
pub open spec fn predicate_value<F: Field>(predicate: Option<Expression<F>>, w: Map<u32, F>) -> Result<
    Option<F>,
    OpcodeResolutionError<F>,
> {
    match predicate {
        None => Ok(None),
        Some(p) => match get_value_spec(p, w) {
            Ok(v) => Ok(Some(v)),
            Err(e) => Err(e),
        },
    }
}

/// The outcome of a memory operation on `block` under `w`: the result,
/// the block after it and the witness map after it.
pub open spec fn memory_op_outcome<F: Field>(
    block: Seq<F>,
    op: MemOp<F>,
    w: Map<u32, F>,
    predicate: Option<Expression<F>>,
    pedantic: bool,
) -> (Result<(), OpcodeResolutionError<F>>, Seq<F>, Map<u32, F>) {
    match predicate_value(predicate, w) {
        Err(e) => (Err(e), block, w),
        Ok(Some(pv)) if pv == F::zero_spec() => {
            if op.operation == MemOpKind::Read {
                let d = as_witness(op.value).unwrap();
                if can_insert(w, d, F::zero_spec()) {
                    (Ok(()), block, w.insert(d.0, F::zero_spec()))
                } else {
                    (Err(unsatisfied()), block, w)
                }
            } else {
                (Ok(()), block, w)
            }
        },
        Ok(pred) => match get_value_spec(op.index, w) {
            Err(e) => (Err(e), block, w),
            Ok(iv) => match F::to_u32_spec(iv) {
                Some(i) if (i as int) < block.len() => {
                    if pedantic && pred is Some && pred.unwrap() != F::one_spec() {
                        (
                            Err(
                                OpcodeResolutionError::PredicateLargerThanOne {
                                    opcode_location: ErrorLocation::Unresolved,
                                    pred_value: pred.unwrap(),
                                },
                            ),
                            block,
                            w,
                        )
                    } else if op.operation == MemOpKind::Read {
                        let d = as_witness(op.value).unwrap();
                        let v = block[i as int];
                        if can_insert(w, d, v) {
                            (Ok(()), block, w.insert(d.0, v))
                        } else {
                            (Err(unsatisfied()), block, w)
                        }
                    } else {
                        match get_value_spec(op.value, w) {
                            Err(e) => (Err(e), block, w),
                            Ok(v) => (Ok(()), block.update(i as int, v), w),
                        }
                    }
                },
                _ => (
                    Err(
                        OpcodeResolutionError::IndexOutOfBounds {
                            opcode_location: ErrorLocation::Unresolved,
                            index: iv,
                            array_size: block.len() as u32,
                        },
                    ),
                    block,
                    w,
                ),
            },
        },
    }
}

/// The values of `init` under `w`, when all are assigned.
pub open spec fn all_assigned<F>(init: Seq<Witness>, w: Map<u32, F>) -> bool {
    forall|i: int| 0 <= i < init.len() ==> w.contains_key(#[trigger] init[i].0)
}

impl<F: Field> MemoryOpSolver<F> {
    pub open spec fn wf(&self) -> bool {
        self.block_value@.len() == self.block_len as int
    }

    /// A block holding the values of `init`, read from `w`.
    pub fn init(init: &Vec<Witness>, w: &WitnessMap<F>) -> (r: Result<
        Self,
        OpcodeResolutionError<F>,
    >)
        requires
            init@.len() <= u32::MAX,
        ensures
            all_assigned(init@, w@) ==> r is Ok && r.unwrap().wf() && r.unwrap().block_len
                == init@.len() && forall|i: int|
                0 <= i < init@.len() ==> #[trigger] r.unwrap().block_value@[i] == w@[init@[i].0],
            !all_assigned(init@, w@) ==> exists|i: int|
                0 <= i < init@.len() && !w@.contains_key(init@[i].0) && all_assigned(
                    init@.subrange(0, i),
                    w@,
                ) && r == Err::<Self, _>(
                    OpcodeResolutionError::OpcodeNotSolvable(
                        OpcodeNotSolvable::<F>::MissingAssignment(#[trigger] init@[i].0),
                    ),
                ),
    {
        let mut values: Vec<F> = Vec::new();
        let mut i: usize = 0;
        while i < init.len()
            invariant
                0 <= i <= init@.len(),
                values@.len() == i,
                forall|k: int| 0 <= k < i ==> w@.contains_key(#[trigger] init@[k].0),
                forall|k: int| 0 <= k < i ==> #[trigger] values@[k] == w@[init@[k].0],
            decreases init@.len() - i,
        {
            let v = witness_to_value(w, init[i]);
            match v {
                Ok(v) => values.push(v),
                Err(e) => {
                    assert(all_assigned(init@.subrange(0, i as int), w@));
                    return Err(e);
                },
            }
            i = i + 1;
        }
        Ok(MemoryOpSolver { block_value: values, block_len: init.len() as u32 })
    }

    fn index_from_field(&self, index: F) -> (r: Result<u32, OpcodeResolutionError<F>>)
        requires
            self.wf(),
        ensures
            match F::to_u32_spec(index) {
                Some(i) if i < self.block_len => r == Ok::<u32, OpcodeResolutionError<F>>(i),
                _ => r == Err::<u32, _>(
                    OpcodeResolutionError::IndexOutOfBounds {
                        opcode_location: ErrorLocation::Unresolved,
                        index,
                        array_size: self.block_len,
                    },
                ),
            },
    {
        match index.try_to_u32() {
            Some(i) => {
                if i < self.block_len {
                    return Ok(i);
                }
            },
            None => {},
        }
        Err(
            OpcodeResolutionError::IndexOutOfBounds {
                opcode_location: ErrorLocation::Unresolved,
                index,
                array_size: self.block_len,
            },
        )
    }

    /// Performs `op` on this block, gated by `predicate`.
    pub fn solve_memory_op(
        &mut self,
        op: &MemOp<F>,
        w: &mut WitnessMap<F>,
        predicate: &Option<Expression<F>>,
        pedantic_solving: bool,
    ) -> (r: Result<(), OpcodeResolutionError<F>>)
        requires
            old(self).wf(),
            mem_op_well_formed(*op),
        ensures
            final(self).wf(),
            final(self).block_len == old(self).block_len,
            (r, final(self).block_value@, final(w)@) == memory_op_outcome(
                old(self).block_value@,
                *op,
                old(w)@,
                *predicate,
                pedantic_solving,
            ),
    {
        let pred_value = match predicate {
            None => None,
            Some(p) => match get_value(p, w) {
                Ok(v) => Some(v),
                Err(e) => {
                    return Err(e);
                },
            },
        };
        let skip = match pred_value {
            Some(pv) => pv.is_zero(),
            None => false,
        };
        if skip {
            return match op.operation {
                MemOpKind::Read => {
                    let d = op.value.to_witness().unwrap();
                    insert_value(&d, F::zero(), w)
                },
                MemOpKind::Write => Ok(()),
            };
        }
        let index = match get_value(&op.index, w) {
            Ok(v) => v,
            Err(e) => {
                return Err(e);
            },
        };
        let i = match self.index_from_field(index) {
            Ok(i) => i,
            Err(e) => {
                return Err(e);
            },
        };
        if pedantic_solving {
            match pred_value {
                Some(pv) => {
                    if !pv.is_one() {
                        return Err(
                            OpcodeResolutionError::PredicateLargerThanOne {
                                opcode_location: ErrorLocation::Unresolved,
                                pred_value: pv,
                            },
                        );
                    }
                },
                None => {},
            }
        }
        match op.operation {
            MemOpKind::Read => {
                let d = op.value.to_witness().unwrap();
                let v = self.block_value[i as usize];
                insert_value(&d, v, w)
            },
            MemOpKind::Write => {
                match get_value(&op.value, w) {
                    Ok(v) => {
                        self.block_value.set(i as usize, v);
                        Ok(())
                    },
                    Err(e) => Err(e),
                }
            },
        }
    }
}

} // verus!
