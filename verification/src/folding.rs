//! The left-fold helper: a binary combiner (an ordinary callable or a
//! macro-like expansion, marked apart but applied alike), a seed, and an
//! ordered list of operand expressions reduce strictly left to right.

use vstd::prelude::*;
use crate::ast::{Combiner, Expr, Val, Value, EvalError};
use crate::eval::{eval_spec, eval, res_of, lemma_eval_int_range};

verus! {

/// What applying a combiner to an accumulator and an operand yields: the
/// combiner's body evaluated with exactly its two parameters bound.
pub open spec fn apply_spec(c: Combiner, a: i64, b: i64) -> Result<Val, EvalError> {
    eval_spec(seq![(c.left, a), (c.right, b)], c.body)
}

/// What folding the operands into an integer accumulator yields: no operands
/// leave the accumulator unchanged; otherwise the first operand is evaluated,
/// combined with the accumulator, and the rest are folded into the result.
/// Every intermediate value must be an integer.
pub open spec fn fold_spec(c: Combiner, acc: i64, ops: Seq<Expr>) -> Result<Val, EvalError>
    decreases ops.len(),
{
    if ops.len() == 0 {
        Ok(Val::Int(acc as int))
    } else {
        match eval_spec(Seq::empty(), ops[0]) {
            Err(e) => Err(e),
            Ok(Val::Int(v)) => match apply_spec(c, acc, v as i64) {
                Err(e) => Err(e),
                Ok(Val::Int(acc2)) => fold_spec(c, acc2 as i64, ops.drop_first()),
                Ok(_) => Err(EvalError::TypeMismatch),
            },
            Ok(_) => Err(EvalError::TypeMismatch),
        }
    }
}

/// What the fold entry point yields: the seed is evaluated once, in an empty
/// environment, and must be an integer; the operands are then folded in,
/// strictly left to right.
pub open spec fn fold_full_spec(c: Combiner, seed: Expr, ops: Seq<Expr>) -> Result<
    Val,
    EvalError,
> {
    match eval_spec(Seq::empty(), seed) {
        Err(e) => Err(e),
        Ok(Val::Int(a)) => fold_spec(c, a as i64, ops),
        Ok(_) => Err(EvalError::TypeMismatch),
    }
}

/// Applies a combiner to an accumulator and one operand value.
fn apply(c: &Combiner, a: i64, b: i64) -> (r: Result<Value, EvalError>)
    ensures
        res_of(r) == apply_spec(*c, a, b),
{
    let mut env: Vec<(u32, i64)> = Vec::new();
    env.push((c.left, a));
    env.push((c.right, b));
    proof {
        assert(env@ =~= seq![(c.left, a), (c.right, b)]);
    }
    eval(&env, &c.body)
}

/// Left-folds the operands into the seed with the combiner, strictly left to
/// right: with no operands the seed's value, with operands each one combined
/// in turn into the accumulator.
pub fn fold(c: &Combiner, seed: &Expr, ops: &Vec<Expr>) -> (r: Result<Value, EvalError>)
    ensures
        res_of(r) == fold_full_spec(*c, *seed, ops@),
{
    let s0 = match eval(&Vec::new(), seed) {
        Ok(v) => v,
        Err(e) => {
            return Err(e);
        },
    };
    let mut acc: i64 = match s0 {
        Value::Int(a) => a,
        _ => {
            return Err(EvalError::TypeMismatch);
        },
    };
    let mut i: usize = 0;
    proof {
        assert(ops@.skip(0) =~= ops@);
    }
    while i < ops.len()
        invariant
            0 <= i <= ops@.len(),
            fold_full_spec(*c, *seed, ops@) == fold_spec(*c, acc, ops@.skip(i as int)),
        decreases ops@.len() - i,
    {
        proof {
            assert(ops@.skip(i as int)[0] == ops@[i as int]);
            assert(ops@.skip(i as int).drop_first() =~= ops@.skip(i as int + 1));
        }
        let v = match eval(&Vec::new(), &ops[i]) {
            Ok(Value::Int(v)) => v,
            Ok(_) => {
                return Err(EvalError::TypeMismatch);
            },
            Err(e) => {
                return Err(e);
            },
        };
        acc = match apply(c, acc, v) {
            Ok(Value::Int(a)) => a,
            Ok(_) => {
                return Err(EvalError::TypeMismatch);
            },
            Err(e) => {
                return Err(e);
            },
        };
        i += 1;
    }
    proof {
        assert(ops@.skip(i as int) =~= Seq::<Expr>::empty());
    }
    Ok(Value::Int(acc))
}

/// One more operand on the right: what it does to an already-folded prefix.
pub open spec fn fold_step(c: Combiner, prior: Result<Val, EvalError>, op: Expr) -> Result<
    Val,
    EvalError,
> {
    match prior {
        Err(e) => Err(e),
        Ok(Val::Int(n)) => match eval_spec(Seq::empty(), op) {
            Err(e) => Err(e),
            Ok(Val::Int(v)) => match apply_spec(c, n as i64, v as i64) {
                Err(e) => Err(e),
                Ok(Val::Int(m)) => Ok(Val::Int(m)),
                Ok(_) => Err(EvalError::TypeMismatch),
            },
            Ok(_) => Err(EvalError::TypeMismatch),
        },
        Ok(_) => Err(EvalError::TypeMismatch),
    }
}

/// Law (strict left-fold): appending one operand folds the prefix first and
/// combines its result with that operand last — the reduction order is the
/// left-fold order and nothing else, whatever the combiner.
pub proof fn lemma_fold_snoc(c: Combiner, acc: i64, ops: Seq<Expr>, op: Expr)
    ensures
        fold_spec(c, acc, ops.push(op)) == fold_step(c, fold_spec(c, acc, ops), op),
    decreases ops.len(),
{
    reveal_with_fuel(fold_spec, 3);
    if ops.len() == 0 {
        assert(ops.push(op)[0] == op);
        assert(ops.push(op).drop_first() =~= Seq::<Expr>::empty());
        lemma_eval_int_range(Seq::empty(), op);
        match eval_spec(Seq::empty(), op) {
            Ok(Val::Int(v)) => {
                lemma_eval_int_range(seq![(c.left, acc), (c.right, v as i64)], c.body);
            },
            _ => {},
        }
    } else {
        assert(ops.push(op)[0] == ops[0]);
        assert(ops.push(op).drop_first() =~= ops.drop_first().push(op));
        match eval_spec(Seq::empty(), ops[0]) {
            Err(_) => {},
            Ok(Val::Int(v)) => {
                match apply_spec(c, acc, v as i64) {
                    Err(_) => {},
                    Ok(Val::Int(acc2)) => {
                        lemma_fold_snoc(c, acc2 as i64, ops.drop_first(), op);
                    },
                    Ok(_) => {},
                }
            },
            Ok(_) => {},
        }
    }
}

} // verus!
