use vstd::prelude::*;

use crate::errors::{ErrorLocation, OpcodeNotSolvable, OpcodeResolutionError};
use crate::expression::Expression;
use crate::field::Field;
use crate::native_types::{Witness, WitnessMap};

verus! {

pub open spec fn known<F>(w: Map<u32, F>, x: Witness) -> bool {
    w.contains_key(x.0)
}

/// The constant that the fully assigned product terms contribute, summed
/// from the first term on.
pub open spec fn reduced_mul_constant<F: Field>(
    terms: Seq<(F, Witness, Witness)>,
    w: Map<u32, F>,
) -> F
    decreases terms.len(),
{
    if terms.len() == 0 {
        F::zero_spec()
    } else {
        let acc = reduced_mul_constant(terms.drop_last(), w);
        let t = terms.last();
        if known(w, t.1) && known(w, t.2) {
            F::add_spec(acc, F::mul_spec(F::mul_spec(t.0, w[t.1.0]), w[t.2.0]))
        } else {
            acc
        }
    }
}

/// The linear terms left by product terms with exactly one assigned factor
/// (those whose new coefficient is zero vanish).
pub open spec fn reduced_mul_linear<F: Field>(
    terms: Seq<(F, Witness, Witness)>,
    w: Map<u32, F>,
) -> Seq<(F, Witness)>
    decreases terms.len(),
{
    if terms.len() == 0 {
        seq![]
    } else {
        let prev = reduced_mul_linear(terms.drop_last(), w);
        let t = terms.last();
        if !known(w, t.1) && known(w, t.2) {
            let v = F::mul_spec(t.0, w[t.2.0]);
            if v != F::zero_spec() {
                prev.push((v, t.1))
            } else {
                prev
            }
        } else if known(w, t.1) && !known(w, t.2) {
            let v = F::mul_spec(t.0, w[t.1.0]);
            if v != F::zero_spec() {
                prev.push((v, t.2))
            } else {
                prev
            }
        } else {
            prev
        }
    }
}

/// The product terms with no assigned factor and a nonzero coefficient.
pub open spec fn reduced_mul_rest<F: Field>(
    terms: Seq<(F, Witness, Witness)>,
    w: Map<u32, F>,
) -> Seq<(F, Witness, Witness)>
    decreases terms.len(),
{
    if terms.len() == 0 {
        seq![]
    } else {
        let prev = reduced_mul_rest(terms.drop_last(), w);
        let t = terms.last();
        if !known(w, t.1) && !known(w, t.2) && t.0 != F::zero_spec() {
            prev.push(t)
        } else {
            prev
        }
    }
}

/// `acc` plus the contributions of the assigned linear terms, in order.
pub open spec fn reduced_linear_constant<F: Field>(
    terms: Seq<(F, Witness)>,
    w: Map<u32, F>,
    acc: F,
) -> F
    decreases terms.len(),
{
    if terms.len() == 0 {
        acc
    } else {
        let prev = reduced_linear_constant(terms.drop_last(), w, acc);
        let t = terms.last();
        if known(w, t.1) {
            F::add_spec(prev, F::mul_spec(t.0, w[t.1.0]))
        } else {
            prev
        }
    }
}

/// The linear terms whose witness is unassigned.
pub open spec fn reduced_linear_rest<F: Field>(terms: Seq<(F, Witness)>, w: Map<u32, F>) -> Seq<
    (F, Witness),
>
    decreases terms.len(),
{
    if terms.len() == 0 {
        seq![]
    } else {
        let prev = reduced_linear_rest(terms.drop_last(), w);
        let t = terms.last();
        if known(w, t.1) {
            prev
        } else {
            prev.push(t)
        }
    }
}

/// The constant term of `e` once every assigned witness is substituted.
pub open spec fn reduced_constant<F: Field>(e: Expression<F>, w: Map<u32, F>) -> F {
    F::add_spec(
        reduced_linear_constant(
            e.linear_combinations@,
            w,
            reduced_mul_constant(e.mul_terms@, w),
        ),
        e.q_c,
    )
}

/// The linear terms of `e` after substitution.
pub open spec fn reduced_linear<F: Field>(e: Expression<F>, w: Map<u32, F>) -> Seq<(F, Witness)> {
    reduced_mul_linear(e.mul_terms@, w) + reduced_linear_rest(e.linear_combinations@, w)
}

/// The product terms of `e` after substitution.
pub open spec fn reduced_mul<F: Field>(e: Expression<F>, w: Map<u32, F>) -> Seq<
    (F, Witness, Witness),
> {
    reduced_mul_rest(e.mul_terms@, w)
}

/// `r` is `e` with every assigned witness of `w` substituted.
pub open spec fn is_reduction<F: Field>(r: Expression<F>, e: Expression<F>, w: Map<u32, F>) -> bool {
    &&& r.mul_terms@ == reduced_mul(e, w)
    &&& r.linear_combinations@ == reduced_linear(e, w)
    &&& r.q_c == reduced_constant(e, w)
}

/// `e` reduces to a constant under `w`.
pub open spec fn reduces_to_const<F: Field>(e: Expression<F>, w: Map<u32, F>) -> bool {
    reduced_mul(e, w).len() == 0 && reduced_linear(e, w).len() == 0
}

/// Substitutes every assigned witness of `w` into `expr`, folding what is
/// known into the constant term.
pub fn evaluate<F: Field>(expr: &Expression<F>, w: &WitnessMap<F>) -> (r: Expression<F>)
    ensures
        is_reduction(r, *expr, w@),
{
    let mut mul_terms: Vec<(F, Witness, Witness)> = Vec::new();
    let mut linear: Vec<(F, Witness)> = Vec::new();
    let mut q: F = F::zero();
    let n = expr.mul_terms.len();
    let mut i: usize = 0;
    while i < n
        invariant
            n == expr.mul_terms@.len(),
            0 <= i <= n,
            q == reduced_mul_constant(expr.mul_terms@.subrange(0, i as int), w@),
            linear@ == reduced_mul_linear(expr.mul_terms@.subrange(0, i as int), w@),
            mul_terms@ == reduced_mul_rest(expr.mul_terms@.subrange(0, i as int), w@),
        decreases n - i,
    {
        let (c, a, b) = expr.mul_terms[i];
        assert(expr.mul_terms@.subrange(0, i + 1).drop_last() == expr.mul_terms@.subrange(
            0,
            i as int,
        ));
        match (w.get(&a), w.get(&b)) {
            (Some(va), Some(vb)) => {
                let f = c.mul(&va).mul(&vb);
                q = q.add(&f);
            },
            (None, Some(vb)) => {
                let v = c.mul(&vb);
                if !v.is_zero() {
                    linear.push((v, a));
                }
            },
            (Some(va), None) => {
                let v = c.mul(&va);
                if !v.is_zero() {
                    linear.push((v, b));
                }
            },
            (None, None) => {
                if !c.is_zero() {
                    mul_terms.push((c, a, b));
                }
            },
        }
        i = i + 1;
    }
    assert(expr.mul_terms@.subrange(0, n as int) == expr.mul_terms@);
    let ghost from_mul = linear@;
    let m = expr.linear_combinations.len();
    let mut j: usize = 0;
    while j < m
        invariant
            m == expr.linear_combinations@.len(),
            0 <= j <= m,
            from_mul == reduced_mul_linear(expr.mul_terms@, w@),
            q == reduced_linear_constant(
                expr.linear_combinations@.subrange(0, j as int),
                w@,
                reduced_mul_constant(expr.mul_terms@, w@),
            ),
            linear@ == from_mul + reduced_linear_rest(
                expr.linear_combinations@.subrange(0, j as int),
                w@,
            ),
        decreases m - j,
    {
        let (c, x) = expr.linear_combinations[j];
        assert(expr.linear_combinations@.subrange(0, j + 1).drop_last()
            == expr.linear_combinations@.subrange(0, j as int));
        match w.get(&x) {
            Some(v) => {
                let f = c.mul(&v);
                q = q.add(&f);
            },
            None => {
                linear.push((c, x));
                assert(linear@ == from_mul + reduced_linear_rest(
                    expr.linear_combinations@.subrange(0, j + 1),
                    w@,
                ));
            },
        }
        j = j + 1;
    }
    assert(expr.linear_combinations@.subrange(0, m as int) == expr.linear_combinations@);
    let q_c = q.add(&expr.q_c);
    Expression { mul_terms, linear_combinations: linear, q_c }
}

proof fn lemma_mul_linear_unknown<F: Field>(terms: Seq<(F, Witness, Witness)>, w: Map<u32, F>)
    ensures
        forall|i: int|
            0 <= i < reduced_mul_linear(terms, w).len() ==> !known(
                w,
                #[trigger] reduced_mul_linear(terms, w)[i].1,
            ),
    decreases terms.len(),
{
    if terms.len() > 0 {
        lemma_mul_linear_unknown(terms.drop_last(), w);
        let prev = reduced_mul_linear(terms.drop_last(), w);
        let res = reduced_mul_linear(terms, w);
        assert forall|i: int| 0 <= i < res.len() implies !known(w, #[trigger] res[i].1) by {
            if i < prev.len() {
                assert(res[i] == prev[i]);
                assert(!known(w, prev[i].1));
            }
        }
    }
}

proof fn lemma_linear_rest_unknown<F: Field>(terms: Seq<(F, Witness)>, w: Map<u32, F>)
    ensures
        forall|i: int|
            0 <= i < reduced_linear_rest(terms, w).len() ==> !known(
                w,
                #[trigger] reduced_linear_rest(terms, w)[i].1,
            ),
    decreases terms.len(),
{
    if terms.len() > 0 {
        lemma_linear_rest_unknown(terms.drop_last(), w);
        let prev = reduced_linear_rest(terms.drop_last(), w);
        let res = reduced_linear_rest(terms, w);
        assert forall|i: int| 0 <= i < res.len() implies !known(w, #[trigger] res[i].1) by {
            if i < prev.len() {
                assert(res[i] == prev[i]);
                assert(!known(w, prev[i].1));
            }
        }
    }
}

/// Every linear term left after substitution is over an unassigned witness.
pub proof fn lemma_reduced_linear_unknown<F: Field>(e: Expression<F>, w: Map<u32, F>)
    ensures
        forall|i: int|
            0 <= i < reduced_linear(e, w).len() ==> !known(w, #[trigger] reduced_linear(e, w)[i].1),
{
    lemma_mul_linear_unknown(e.mul_terms@, w);
    lemma_linear_rest_unknown(e.linear_combinations@, w);
    let a = reduced_mul_linear(e.mul_terms@, w);
    let b = reduced_linear_rest(e.linear_combinations@, w);
    assert forall|i: int| 0 <= i < (a + b).len() implies !known(w, #[trigger] (a + b)[i].1) by {
        if i < a.len() {
            assert((a + b)[i] == a[i]);
        } else {
            assert((a + b)[i] == b[i - a.len()]);
        }
    }
}

/// The unassigned witness reported for an expression that is not constant:
/// the first linear term's, else the first product term's left factor.
pub open spec fn first_witness<F>(e: Expression<F>) -> Witness {
    if e.linear_combinations@.len() > 0 {
        e.linear_combinations@[0].1
    } else {
        e.mul_terms@[0].1
    }
}

/// Returns one witness of an expression, `None` if it is constant.
fn any_witness_from_expression<F: Field>(expr: &Expression<F>) -> (r: Option<Witness>)
    ensures
        r == (if expr.mul_terms@.len() == 0 && expr.linear_combinations@.len() == 0 {
            None
        } else {
            Some(first_witness(*expr))
        }),
{
    if expr.linear_combinations.len() == 0 {
        if expr.mul_terms.len() == 0 {
            None
        } else {
            Some(expr.mul_terms[0].1)
        }
    } else {
        Some(expr.linear_combinations[0].1)
    }
}

/// What `get_value` returns: the constant that `e` reduces to, or the
/// missing assignment of a witness that is still unknown.
pub open spec fn get_value_spec<F: Field>(e: Expression<F>, w: Map<u32, F>) -> Result<
    F,
    OpcodeResolutionError<F>,
> {
    if reduces_to_const(e, w) {
        Ok(reduced_constant(e, w))
    } else {
        let rl = reduced_linear(e, w);
        let x = if rl.len() > 0 {
            rl[0].1
        } else {
            reduced_mul(e, w)[0].1
        };
        Err(OpcodeResolutionError::OpcodeNotSolvable(OpcodeNotSolvable::<F>::MissingAssignment(x.0)))
    }
}

/// The concrete value of an expression under the current assignment.
pub fn get_value<F: Field>(expr: &Expression<F>, w: &WitnessMap<F>) -> (r: Result<
    F,
    OpcodeResolutionError<F>,
>)
    ensures
        r == get_value_spec(*expr, w@),
{
    let reduced = evaluate(expr, w);
    match reduced.to_const() {
        Some(v) => Ok(v),
        None => {
            let x = any_witness_from_expression(&reduced);
            Err(
                OpcodeResolutionError::OpcodeNotSolvable(
                    OpcodeNotSolvable::MissingAssignment(x.unwrap().0),
                ),
            )
        },
    }
}

/// The value of `witness`, or its missing assignment.
pub fn witness_to_value<F: Field>(w: &WitnessMap<F>, witness: Witness) -> (r: Result<
    F,
    OpcodeResolutionError<F>,
>)
    ensures
        r == (if w@.contains_key(witness.0) {
            Ok(w@[witness.0])
        } else {
            Err(
                OpcodeResolutionError::OpcodeNotSolvable(
                    OpcodeNotSolvable::<F>::MissingAssignment(witness.0),
                ),
            )
        }),
{
    match w.get(&witness) {
        Some(v) => Ok(v),
        None => Err(
            OpcodeResolutionError::OpcodeNotSolvable(
                OpcodeNotSolvable::MissingAssignment(witness.0),
            ),
        ),
    }
}

/// Inserting `v` at `x` keeps the map monotone: `x` is unassigned or holds `v`.
pub open spec fn can_insert<F>(w: Map<u32, F>, x: Witness, v: F) -> bool {
    !w.contains_key(x.0) || w[x.0] == v
}

pub open spec fn unsatisfied<F>() -> OpcodeResolutionError<F> {
    OpcodeResolutionError::UnsatisfiedConstrain {
        opcode_location: ErrorLocation::Unresolved,
        payload: None,
    }
}

/// Monotone insertion: assigns `value` to `witness` unless the witness
/// already holds a different value, which is an unsatisfied constraint.
pub fn insert_value<F: Field>(witness: &Witness, value: F, w: &mut WitnessMap<F>) -> (r: Result<
    (),
    OpcodeResolutionError<F>,
>)
    ensures
        can_insert(old(w)@, *witness, value) ==> r == Ok::<(), OpcodeResolutionError<F>>(())
            && final(w)@ == old(w)@.insert(
            witness.0,
            value,
        ),
        !can_insert(old(w)@, *witness, value) ==> r == Err::<(), _>(unsatisfied::<F>())
            && final(w)@ == old(w)@,
{
    match w.get(witness) {
        Some(old_value) => {
            if !old_value.equals(&value) {
                return Err(
                    OpcodeResolutionError::UnsatisfiedConstrain {
                        opcode_location: ErrorLocation::Unresolved,
                        payload: None,
                    },
                );
            }
        },
        None => {},
    }
    w.insert(*witness, value);
    Ok(())
}

/// What solving `e = 0` does under `w`: `None` for an unsatisfied or
/// unsolvable expression, else the assignment it adds, if any.
pub open spec fn solved_assignment<F: Field>(e: Expression<F>, w: Map<u32, F>) -> Option<
    (Witness, F),
> {
    let rl = reduced_linear(e, w);
    let q = reduced_constant(e, w);
    if rl.len() == 1 && rl[0].0 != F::zero_spec() {
        Some((rl[0].1, F::div_spec(F::neg_spec(q), rl[0].0)))
    } else {
        None
    }
}

/// `e` has a single unknown, in a linear term with a nonzero coefficient.
pub open spec fn one_unknown<F: Field>(e: Expression<F>, w: Map<u32, F>) -> bool {
    reduced_mul(e, w).len() == 0 && reduced_linear(e, w).len() == 1 && reduced_linear(e, w)[0].0
        != F::zero_spec()
}

/// `e` leaves no unknown that could change its value: no terms, or one
/// linear term with a zero coefficient.
pub open spec fn only_constant<F: Field>(e: Expression<F>, w: Map<u32, F>) -> bool {
    reduced_mul(e, w).len() == 0 && (reduced_linear(e, w).len() == 0 || (reduced_linear(e, w).len()
        == 1 && reduced_linear(e, w)[0].0 == F::zero_spec()))
}

/// Solves `expr = 0`: checks a constant, assigns a single unknown, or
/// reports too many unknowns with the reduced expression.
pub fn solve<F: Field>(w: &mut WitnessMap<F>, expr: &Expression<F>) -> (r: Result<
    (),
    OpcodeResolutionError<F>,
>)
    ensures
        only_constant(*expr, old(w)@) ==> final(w)@ == old(w)@ && (if reduced_constant(
            *expr,
            old(w)@,
        ) == F::zero_spec() {
            r is Ok
        } else {
            r == Err::<(), _>(unsatisfied::<F>())
        }),
        one_unknown(*expr, old(w)@) ==> r is Ok && {
            let (x, v) = solved_assignment(*expr, old(w)@).unwrap();
            &&& !old(w)@.contains_key(x.0)
            &&& final(w)@ == old(w)@.insert(x.0, v)
        },
        !only_constant(*expr, old(w)@) && !one_unknown(*expr, old(w)@) ==> final(w)@ == old(w)@
            && match r {
            Err(OpcodeResolutionError::OpcodeNotSolvable(
                OpcodeNotSolvable::ExpressionHasTooManyUnknowns(red),
            )) => is_reduction(red, *expr, old(w)@),
            _ => false,
        },
{
    let reduced = evaluate(expr, w);
    proof {
        lemma_reduced_linear_unknown(*expr, w@);
    }
    if reduced.mul_terms.len() == 0 {
        let n = reduced.linear_combinations.len();
        if n == 0 || (n == 1 && reduced.linear_combinations[0].0.is_zero()) {
            if reduced.q_c.is_zero() {
                return Ok(());
            } else {
                return Err(
                    OpcodeResolutionError::UnsatisfiedConstrain {
                        opcode_location: ErrorLocation::Unresolved,
                        payload: None,
                    },
                );
            }
        }
        if n == 1 {
            let (a, x) = reduced.linear_combinations[0];
            let v = reduced.q_c.neg().div(&a);
            assert(!known(w@, reduced_linear(*expr, w@)[0].1));
            w.insert(x, v);
            return Ok(());
        }
    }
    Err(OpcodeResolutionError::OpcodeNotSolvable(OpcodeNotSolvable::ExpressionHasTooManyUnknowns(reduced)))
}

} // verus!
