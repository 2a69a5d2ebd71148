use vstd::prelude::*;

use crate::arithmetic::{can_insert, get_value, get_value_spec, insert_value, unsatisfied, witness_to_value};
use crate::errors::{ErrorLocation, InvalidInputBitSize, OpcodeNotSolvable, OpcodeResolutionError};
use crate::expression::Expression;
use crate::field::Field;
use crate::opcodes::{ConstantOrWitnessEnum, FunctionInput};
use crate::native_types::{Witness, WitnessMap};

verus! {

/// The value of a blackbox input: a constant, or an assigned witness that
/// fits the declared width unless the width checks are skipped.
pub open spec fn input_value_ok<F: Field>(
    w: Map<u32, F>,
    input: FunctionInput<F>,
    skip_bitsize_checks: bool,
) -> Option<F> {
    match input.input {
        ConstantOrWitnessEnum::Constant(c) => Some(c),
        ConstantOrWitnessEnum::Witness(x) => if w.contains_key(x.0) && (skip_bitsize_checks
            || F::num_bits_spec(w[x.0]) <= input.num_bits) {
            Some(w[x.0])
        } else {
            None
        },
    }
}

/// Resolves a blackbox input against the witness map.
pub fn input_to_value<F: Field>(
    w: &WitnessMap<F>,
    input: FunctionInput<F>,
    skip_bitsize_checks: bool,
) -> (r: Result<F, OpcodeResolutionError<F>>)
    ensures
        input_value_ok(w@, input, skip_bitsize_checks) is Some ==> r == Ok::<
            F,
            OpcodeResolutionError<F>,
        >(input_value_ok(w@, input, skip_bitsize_checks).unwrap()),
        input_value_ok(w@, input, skip_bitsize_checks) is None ==> match input.input {
            ConstantOrWitnessEnum::Witness(x) => if !w@.contains_key(x.0) {
                r == Err::<F, _>(
                    OpcodeResolutionError::OpcodeNotSolvable(
                        OpcodeNotSolvable::<F>::MissingAssignment(x.0),
                    ),
                )
            } else {
                match r {
                    Err(
                        OpcodeResolutionError::InvalidInputBitSize {
                            opcode_location,
                            invalid_input_bit_size,
                        },
                    ) => opcode_location == ErrorLocation::Unresolved
                        && invalid_input_bit_size.value == F::decimal_spec(w@[x.0])
                        && invalid_input_bit_size.value_num_bits == F::num_bits_spec(w@[x.0])
                        && invalid_input_bit_size.max_bits == input.num_bits,
                    _ => false,
                }
            },
            _ => false,
        },
{
    match input.input {
        ConstantOrWitnessEnum::Witness(witness) => {
            let initial_value = match witness_to_value(w, witness) {
                Ok(v) => v,
                Err(e) => {
                    return Err(e);
                },
            };
            if skip_bitsize_checks || initial_value.num_bits() <= input.num_bits {
                Ok(initial_value)
            } else {
                let value_num_bits = initial_value.num_bits();
                let value = initial_value.to_decimal_string();
                Err(
                    OpcodeResolutionError::InvalidInputBitSize {
                        opcode_location: ErrorLocation::Unresolved,
                        invalid_input_bit_size: InvalidInputBitSize {
                            value,
                            value_num_bits,
                            max_bits: input.num_bits,
                        },
                    },
                )
            }
        },
        ConstantOrWitnessEnum::Constant(value) => Ok(value),
    }
}

/// Whether an optional predicate is false: `None` is true; under pedantic
/// solving a value other than zero and one is an error at `location`.
pub open spec fn predicate_false_spec<F: Field>(
    w: Map<u32, F>,
    predicate: Option<Expression<F>>,
    pedantic_solving: bool,
    location: ErrorLocation,
) -> Result<bool, OpcodeResolutionError<F>> {
    match predicate {
        None => Ok(false),
        Some(p) => match get_value_spec(p, w) {
            Err(e) => Err(e),
            Ok(v) => if pedantic_solving && v != F::zero_spec() && v != F::one_spec() {
                Err(OpcodeResolutionError::PredicateLargerThanOne { opcode_location: location, pred_value: v })
            } else {
                Ok(v == F::zero_spec())
            },
        },
    }
}

pub fn is_predicate_false<F: Field>(
    w: &WitnessMap<F>,
    predicate: &Option<Expression<F>>,
    pedantic_solving: bool,
    opcode_location: &ErrorLocation,
) -> (r: Result<bool, OpcodeResolutionError<F>>)
    ensures
        r == predicate_false_spec(w@, *predicate, pedantic_solving, *opcode_location),
{
    match predicate {
        Some(pred) => {
            let pred_value = match get_value(pred, w) {
                Ok(v) => v,
                Err(e) => {
                    return Err(e);
                },
            };
            let predicate_is_false = pred_value.is_zero();
            if pedantic_solving {
                if !predicate_is_false && !pred_value.is_one() {
                    return Err(
                        OpcodeResolutionError::PredicateLargerThanOne {
                            opcode_location: *opcode_location,
                            pred_value,
                        },
                    );
                }
            }
            Ok(predicate_is_false)
        },
        None => Ok(false),
    }
}

/// Assigning `values[k]` to `outputs[k]` one after another succeeds.
pub open spec fn outputs_insertable<F>(w: Map<u32, F>, outputs: Seq<Witness>, values: Seq<F>) -> bool
    decreases outputs.len(),
{
    if outputs.len() == 0 {
        true
    } else {
        can_insert(w, outputs[0], values[0]) && outputs_insertable(
            w.insert(outputs[0].0, values[0]),
            outputs.drop_first(),
            values.drop_first(),
        )
    }
}

/// The witness map after assigning `values[k]` to `outputs[k]` in order.
pub open spec fn with_outputs<F>(w: Map<u32, F>, outputs: Seq<Witness>, values: Seq<F>) -> Map<u32, F>
    decreases outputs.len(),
{
    if outputs.len() == 0 {
        w
    } else {
        with_outputs(w.insert(outputs[0].0, values[0]), outputs.drop_first(), values.drop_first())
    }
}

/// The constant sequence of `n` zeros.
pub open spec fn zeros<F: Field>(n: nat) -> Seq<F> {
    Seq::new(n, |i: int| F::zero_spec())
}

proof fn lemma_with_outputs_step<F>(w: Map<u32, F>, outputs: Seq<Witness>, values: Seq<F>, i: int)
    requires
        0 <= i < outputs.len(),
        outputs.len() == values.len(),
    ensures
        (outputs_insertable(w, outputs.subrange(0, i), values.subrange(0, i)) && can_insert(
            with_outputs(w, outputs.subrange(0, i), values.subrange(0, i)),
            outputs[i],
            values[i],
        )) == outputs_insertable(w, outputs.subrange(0, i + 1), values.subrange(0, i + 1)),
        with_outputs(w, outputs.subrange(0, i + 1), values.subrange(0, i + 1)) == with_outputs(
            w,
            outputs.subrange(0, i),
            values.subrange(0, i),
        ).insert(outputs[i].0, values[i]),
    decreases i,
{
    let o1 = outputs.subrange(0, i + 1);
    let v1 = values.subrange(0, i + 1);
    let o0 = outputs.subrange(0, i);
    let v0 = values.subrange(0, i);
    let w1 = w.insert(outputs[0].0, values[0]);
    if i > 0 {
        let od = outputs.drop_first();
        let vd = values.drop_first();
        lemma_with_outputs_step(w1, od, vd, i - 1);
        assert(o1.drop_first() == od.subrange(0, i));
        assert(v1.drop_first() == vd.subrange(0, i));
        assert(o0.drop_first() == od.subrange(0, i - 1));
        assert(v0.drop_first() == vd.subrange(0, i - 1));
        assert(outputs_insertable(w, o1, v1) == (can_insert(w, outputs[0], values[0])
            && outputs_insertable(w1, od.subrange(0, i), vd.subrange(0, i))));
        assert(outputs_insertable(w, o0, v0) == (can_insert(w, outputs[0], values[0])
            && outputs_insertable(w1, od.subrange(0, i - 1), vd.subrange(0, i - 1))));
        assert(with_outputs(w, o1, v1) == with_outputs(w1, od.subrange(0, i), vd.subrange(0, i)));
        assert(with_outputs(w, o0, v0) == with_outputs(w1, od.subrange(0, i - 1), vd.subrange(0, i - 1)));
    } else {
        assert(o1.drop_first().len() == 0);
        assert(v1.drop_first().len() == 0);
        assert(o0.len() == 0);
        assert(with_outputs(w, o0, v0) == w);
        assert(outputs_insertable(w, o0, v0));
        assert(outputs_insertable(w1, o1.drop_first(), v1.drop_first()));
        assert(with_outputs(w1, o1.drop_first(), v1.drop_first()) == w1);
    }
}

/// Assigns `values[k]` to `outputs[k]` by monotone insertion, stopping at
/// the first conflict.
pub fn insert_outputs<F: Field>(w: &mut WitnessMap<F>, outputs: &Vec<Witness>, values: &Vec<F>) -> (r:
    Result<(), OpcodeResolutionError<F>>)
    requires
        outputs@.len() == values@.len(),
    ensures
        outputs_insertable(old(w)@, outputs@, values@) ==> r == Ok::<
            (),
            OpcodeResolutionError<F>,
        >(()) && final(w)@ == with_outputs(old(w)@, outputs@, values@),
        !outputs_insertable(old(w)@, outputs@, values@) ==> r == Err::<(), _>(unsatisfied::<F>()),
        old(w)@.submap_of(final(w)@),
{
    let n = outputs.len();
    let mut i: usize = 0;
    while i < n
        invariant
            n == outputs@.len(),
            n == values@.len(),
            0 <= i <= n,
            outputs_insertable(old(w)@, outputs@.subrange(0, i as int), values@.subrange(0, i as int)),
            w@ == with_outputs(old(w)@, outputs@.subrange(0, i as int), values@.subrange(0, i as int)),
            old(w)@.submap_of(w@),
        decreases n - i,
    {
        proof {
            lemma_with_outputs_step(old(w)@, outputs@, values@, i as int);
        }
        let ghost before = w@;
        let res = insert_value(&outputs[i], values[i], w);
        match res {
            Ok(()) => {},
            Err(e) => {
                proof {
                    lemma_insertable_prefix(old(w)@, outputs@, values@, i + 1);
                }
                return Err(e);
            },
        }
        i = i + 1;
    }
    assert(outputs@.subrange(0, n as int) == outputs@);
    assert(values@.subrange(0, n as int) == values@);
    Ok(())
}

/// A sequence of insertions that succeeds also succeeds on every prefix.
proof fn lemma_insertable_prefix<F>(w: Map<u32, F>, outputs: Seq<Witness>, values: Seq<F>, i: int)
    requires
        0 <= i <= outputs.len(),
        outputs.len() == values.len(),
        !outputs_insertable(w, outputs.subrange(0, i), values.subrange(0, i)),
    ensures
        !outputs_insertable(w, outputs, values),
    decreases outputs.len(),
{
    if i > 0 {
        if can_insert(w, outputs[0], values[0]) {
            assert(outputs.subrange(0, i).drop_first() == outputs.drop_first().subrange(0, i - 1));
            assert(values.subrange(0, i).drop_first() == values.drop_first().subrange(0, i - 1));
            lemma_insertable_prefix(
                w.insert(outputs[0].0, values[0]),
                outputs.drop_first(),
                values.drop_first(),
                i - 1,
            );
        }
    }
}

} // verus!
