//! Evaluation of body expressions and iterables against an environment of
//! binder bindings, together with its mathematical semantics.

use vstd::prelude::*;
use crate::ast::{Expr, Iterable, Val, Value, EvalError, val_of};

verus! {

/// An environment: binders bound to integer elements, innermost binding last.
pub type EnvS = Seq<(u32, i64)>;

/// The binding a name resolves to: the innermost (latest) one wins.
pub open spec fn lookup_spec(env: EnvS, x: u32) -> Option<i64>
    decreases env.len(),
{
    if env.len() == 0 {
        None
    } else if env.last().0 == x {
        Some(env.last().1)
    } else {
        lookup_spec(env.drop_last(), x)
    }
}

/// Whether a mathematical integer fits in an `i64`.
pub open spec fn in_i64(x: int) -> bool {
    i64::MIN <= x <= i64::MAX
}

/// The character of a single decimal digit.
pub open spec fn digit_char(d: nat) -> char {
    if d == 0 { '0' }
    else if d == 1 { '1' }
    else if d == 2 { '2' }
    else if d == 3 { '3' }
    else if d == 4 { '4' }
    else if d == 5 { '5' }
    else if d == 6 { '6' }
    else if d == 7 { '7' }
    else if d == 8 { '8' }
    else { '9' }
}

/// The decimal digits of a non-negative integer, most significant first.
pub open spec fn dec_digits(n: nat) -> Seq<char>
    decreases n,
{
    if n < 10 {
        seq![digit_char(n)]
    } else {
        dec_digits(n / 10).push(digit_char(n % 10))
    }
}

/// The decimal rendering of an integer: digits, with a leading minus sign
/// when it is negative.
pub open spec fn dec_str(x: int) -> Seq<char> {
    if x >= 0 {
        dec_digits(x as nat)
    } else {
        seq!['-'] + dec_digits((-x) as nat)
    }
}

/// What evaluating a body expression yields: the body is evaluated strictly
/// left to right, arithmetic is checked against the `i64` range, and only
/// integer operands take part in arithmetic or formatting.
pub open spec fn eval_spec(env: EnvS, e: Expr) -> Result<Val, EvalError>
    decreases e,
{
    match e {
        Expr::Lit(n) => Ok(Val::Int(n as int)),
        Expr::Var(x) => match lookup_spec(env, x) {
            Some(v) => Ok(Val::Int(v as int)),
            None => Err(EvalError::UnboundVar),
        },
        Expr::Add(a, b) => match (eval_spec(env, *a), eval_spec(env, *b)) {
            (Err(e1), _) => Err(e1),
            (Ok(_), Err(e2)) => Err(e2),
            (Ok(Val::Int(x)), Ok(Val::Int(y))) => if in_i64(x + y) {
                Ok(Val::Int(x + y))
            } else {
                Err(EvalError::Overflow)
            },
            _ => Err(EvalError::TypeMismatch),
        },
        Expr::Sub(a, b) => match (eval_spec(env, *a), eval_spec(env, *b)) {
            (Err(e1), _) => Err(e1),
            (Ok(_), Err(e2)) => Err(e2),
            (Ok(Val::Int(x)), Ok(Val::Int(y))) => if in_i64(x - y) {
                Ok(Val::Int(x - y))
            } else {
                Err(EvalError::Overflow)
            },
            _ => Err(EvalError::TypeMismatch),
        },
        Expr::Mul(a, b) => match (eval_spec(env, *a), eval_spec(env, *b)) {
            (Err(e1), _) => Err(e1),
            (Ok(_), Err(e2)) => Err(e2),
            (Ok(Val::Int(x)), Ok(Val::Int(y))) => if in_i64(x * y) {
                Ok(Val::Int(x * y))
            } else {
                Err(EvalError::Overflow)
            },
            _ => Err(EvalError::TypeMismatch),
        },
        Expr::Fmt(a) => match eval_spec(env, *a) {
            Err(e1) => Err(e1),
            Ok(Val::Int(x)) => Ok(Val::Str(dec_str(x))),
            Ok(_) => Err(EvalError::TypeMismatch),
        },
    }
}

/// Every integer an expression evaluates to fits in an `i64`: literals and
/// bindings are `i64`, and arithmetic is checked.
pub proof fn lemma_eval_int_range(env: EnvS, e: Expr)
    ensures
        eval_spec(env, e) matches Ok(Val::Int(n)) ==> in_i64(n),
    decreases e,
{
    match e {
        Expr::Lit(_) => {},
        Expr::Var(_) => {},
        Expr::Add(_, _) => {},
        Expr::Sub(_, _) => {},
        Expr::Mul(_, _) => {},
        Expr::Fmt(_) => {},
    }
}

/// Maps an executable evaluation result to its model.
pub open spec fn res_of(r: Result<Value, EvalError>) -> Result<Val, EvalError> {
    match r {
        Ok(v) => Ok(val_of(v)),
        Err(e) => Err(e),
    }
}

/// Resolves a binder in the executable environment, innermost binding first.
fn lookup(env: &Vec<(u32, i64)>, x: u32) -> (r: Option<i64>)
    ensures
        r == lookup_spec(env@, x),
{
    proof {
        assert(env@.take(env@.len() as int) =~= env@);
    }
    lookup_from(env, x, env.len())
}

/// Resolves a binder among the first `i` bindings of the environment.
fn lookup_from(env: &Vec<(u32, i64)>, x: u32, i: usize) -> (r: Option<i64>)
    requires
        i <= env@.len(),
    ensures
        r == lookup_spec(env@.take(i as int), x),
    decreases i,
{
    if i == 0 {
        None
    } else if env[i - 1].0 == x {
        Some(env[i - 1].1)
    } else {
        proof {
            assert(env@.take(i as int).drop_last() =~= env@.take(i as int - 1));
        }
        lookup_from(env, x, i - 1)
    }
}

/// One decimal digit as a character.
fn digit(d: u64) -> (r: char)
    requires
        d < 10,
    ensures
        r == digit_char(d as nat),
{
    if d == 0 { '0' }
    else if d == 1 { '1' }
    else if d == 2 { '2' }
    else if d == 3 { '3' }
    else if d == 4 { '4' }
    else if d == 5 { '5' }
    else if d == 6 { '6' }
    else if d == 7 { '7' }
    else if d == 8 { '8' }
    else { '9' }
}

/// The decimal digits of a non-negative number, most significant first.
fn fmt_digits(n: u64) -> (r: Vec<char>)
    ensures
        r@ == dec_digits(n as nat),
    decreases n,
{
    if n < 10 {
        let mut v: Vec<char> = Vec::new();
        v.push(digit(n));
        v
    } else {
        let mut v = fmt_digits(n / 10);
        v.push(digit(n % 10));
        v
    }
}

/// The decimal rendering of an integer.
fn fmt_int(x: i64) -> (r: Vec<char>)
    ensures
        r@ == dec_str(x as int),
{
    if x >= 0 {
        fmt_digits(x as u64)
    } else {
        let m: u64 = (-(x + 1)) as u64 + 1;
        assert(m as int == -(x as int));
        let mut v: Vec<char> = Vec::new();
        v.push('-');
        let mut ds = fmt_digits(m);
        v.append(&mut ds);
        v
    }
}

/// Evaluates a body expression in the given environment.
pub fn eval(env: &Vec<(u32, i64)>, e: &Expr) -> (r: Result<Value, EvalError>)
    ensures
        res_of(r) == eval_spec(env@, *e),
    decreases *e,
{
    match e {
        Expr::Lit(n) => Ok(Value::Int(*n)),
        Expr::Var(x) => match lookup(env, *x) {
            Some(v) => Ok(Value::Int(v)),
            None => Err(EvalError::UnboundVar),
        },
        Expr::Add(a, b) => {
            let va = eval(env, a)?;
            let vb = eval(env, b)?;
            match (va, vb) {
                (Value::Int(x), Value::Int(y)) => {
                    let s: i128 = x as i128 + y as i128;
                    if i64::MIN as i128 <= s && s <= i64::MAX as i128 {
                        Ok(Value::Int(s as i64))
                    } else {
                        Err(EvalError::Overflow)
                    }
                },
                _ => Err(EvalError::TypeMismatch),
            }
        },
        Expr::Sub(a, b) => {
            let va = eval(env, a)?;
            let vb = eval(env, b)?;
            match (va, vb) {
                (Value::Int(x), Value::Int(y)) => {
                    let s: i128 = x as i128 - y as i128;
                    if i64::MIN as i128 <= s && s <= i64::MAX as i128 {
                        Ok(Value::Int(s as i64))
                    } else {
                        Err(EvalError::Overflow)
                    }
                },
                _ => Err(EvalError::TypeMismatch),
            }
        },
        Expr::Mul(a, b) => {
            let va = eval(env, a)?;
            let vb = eval(env, b)?;
            match (va, vb) {
                (Value::Int(x), Value::Int(y)) => {
                    proof {
                        assert(i128::MIN <= (x as int) * (y as int) <= i128::MAX)
                            by (nonlinear_arith)
                            requires
                                i64::MIN <= x as int <= i64::MAX,
                                i64::MIN <= y as int <= i64::MAX,
                        ;
                    }
                    let s: i128 = x as i128 * y as i128;
                    if i64::MIN as i128 <= s && s <= i64::MAX as i128 {
                        Ok(Value::Int(s as i64))
                    } else {
                        Err(EvalError::Overflow)
                    }
                },
                _ => Err(EvalError::TypeMismatch),
            }
        },
        Expr::Fmt(a) => {
            let va = eval(env, a)?;
            match va {
                Value::Int(x) => Ok(Value::Str(fmt_int(x))),
                _ => Err(EvalError::TypeMismatch),
            }
        },
    }
}

/// How many elements the half-open range from `x` up to, excluding, `y` has.
pub open spec fn range_excl_count(x: int, y: int) -> int {
    if y > x { y - x } else { 0 }
}

/// The elements of the half-open range from `x` up to, excluding, `y`.
pub open spec fn range_excl_vals(x: int, y: int) -> Seq<i64> {
    Seq::new(range_excl_count(x, y) as nat, |k: int| (x + k) as i64)
}

/// How many elements the inclusive range from `x` to `y` has.
pub open spec fn range_incl_count(x: int, y: int) -> int {
    if y >= x { y - x + 1 } else { 0 }
}

/// The elements of the inclusive range from `x` to `y`.
pub open spec fn range_incl_vals(x: int, y: int) -> Seq<i64> {
    Seq::new(range_incl_count(x, y) as nat, |k: int| (x + k) as i64)
}

/// What evaluating an explicit item list yields: each item in order must be
/// an integer, and the first failure wins.
pub open spec fn eval_items_spec(env: EnvS, es: Seq<Expr>) -> Result<Seq<i64>, EvalError>
    decreases es.len(),
{
    if es.len() == 0 {
        Ok(Seq::empty())
    } else {
        match eval_spec(env, es[0]) {
            Err(e) => Err(e),
            Ok(Val::Int(v)) => match eval_items_spec(env, es.drop_first()) {
                Err(e) => Err(e),
                Ok(vs) => Ok(seq![v as i64] + vs),
            },
            Ok(_) => Err(EvalError::TypeMismatch),
        }
    }
}

/// What an iterable yields in a given environment: the elements, in the
/// iterable's own order.
pub open spec fn iter_vals_spec(env: EnvS, it: Iterable) -> Result<Seq<i64>, EvalError> {
    match it {
        Iterable::RangeExcl(a, b) => match (eval_spec(env, *a), eval_spec(env, *b)) {
            (Err(e1), _) => Err(e1),
            (Ok(_), Err(e2)) => Err(e2),
            (Ok(Val::Int(x)), Ok(Val::Int(y))) => if range_excl_count(x, y) > usize::MAX {
                Err(EvalError::TooLong)
            } else {
                Ok(range_excl_vals(x, y))
            },
            _ => Err(EvalError::TypeMismatch),
        },
        Iterable::RangeIncl(a, b) => match (eval_spec(env, *a), eval_spec(env, *b)) {
            (Err(e1), _) => Err(e1),
            (Ok(_), Err(e2)) => Err(e2),
            (Ok(Val::Int(x)), Ok(Val::Int(y))) => if range_incl_count(x, y) > usize::MAX {
                Err(EvalError::TooLong)
            } else {
                Ok(range_incl_vals(x, y))
            },
            _ => Err(EvalError::TypeMismatch),
        },
        Iterable::Items(es) => eval_items_spec(env, es@),
    }
}

/// Maps an executable element-vector result to its model.
pub open spec fn res_seq(r: Result<Vec<i64>, EvalError>) -> Result<Seq<i64>, EvalError> {
    match r {
        Ok(v) => Ok(v@),
        Err(e) => Err(e),
    }
}

/// The elements of the half-open range from `x` up to, excluding, `y`,
/// unless there are more of them than a sequence can hold.
fn range_excl_vec(x: i64, y: i64) -> (r: Result<Vec<i64>, EvalError>)
    ensures
        res_seq(r) == (if range_excl_count(x as int, y as int) > usize::MAX {
            Err::<Seq<i64>, EvalError>(EvalError::TooLong)
        } else {
            Ok::<Seq<i64>, EvalError>(range_excl_vals(x as int, y as int))
        }),
{
    let mut out: Vec<i64> = Vec::new();
    if x < y {
        let cnt: i128 = y as i128 - x as i128;
        if cnt > usize::MAX as i128 {
            return Err(EvalError::TooLong);
        }
        let count: usize = cnt as usize;
        let mut k: usize = 0;
        while k < count
            invariant
                x < y,
                count as int == y as int - x as int,
                0 <= k <= count,
                out@.len() == k,
                forall|j: int| 0 <= j < k ==> out@[j] == (x as int + j) as i64,
            decreases count - k,
        {
            out.push((x as i128 + k as i128) as i64);
            k += 1;
        }
    }
    proof {
        assert(out@ =~= range_excl_vals(x as int, y as int));
    }
    Ok(out)
}

/// The elements of the inclusive range from `x` to `y`, unless there are more
/// of them than a sequence can hold.
fn range_incl_vec(x: i64, y: i64) -> (r: Result<Vec<i64>, EvalError>)
    ensures
        res_seq(r) == (if range_incl_count(x as int, y as int) > usize::MAX {
            Err::<Seq<i64>, EvalError>(EvalError::TooLong)
        } else {
            Ok::<Seq<i64>, EvalError>(range_incl_vals(x as int, y as int))
        }),
{
    let mut out: Vec<i64> = Vec::new();
    if x <= y {
        let cnt: i128 = y as i128 - x as i128 + 1;
        if cnt > usize::MAX as i128 {
            return Err(EvalError::TooLong);
        }
        let count: usize = cnt as usize;
        let mut k: usize = 0;
        while k < count
            invariant
                x <= y,
                count as int == y as int - x as int + 1,
                0 <= k <= count,
                out@.len() == k,
                forall|j: int| 0 <= j < k ==> out@[j] == (x as int + j) as i64,
            decreases count - k,
        {
            out.push((x as i128 + k as i128) as i64);
            k += 1;
        }
    }
    proof {
        assert(out@ =~= range_incl_vals(x as int, y as int));
    }
    Ok(out)
}

/// Evaluates the items of an explicit list from position `i` on.
fn eval_items(env: &Vec<(u32, i64)>, es: &Vec<Expr>, i: usize) -> (r: Result<Vec<i64>, EvalError>)
    requires
        i <= es@.len(),
    ensures
        res_seq(r) == eval_items_spec(env@, es@.skip(i as int)),
    decreases es@.len() - i,
{
    if i == es.len() {
        proof {
            assert(es@.skip(i as int) =~= Seq::<Expr>::empty());
        }
        Ok(Vec::new())
    } else {
        proof {
            assert(es@.skip(i as int).drop_first() =~= es@.skip(i as int + 1));
            assert(es@.skip(i as int)[0] == es@[i as int]);
        }
        let v0 = eval(env, &es[i])?;
        match v0 {
            Value::Int(v) => {
                let mut rest = eval_items(env, es, i + 1)?;
                let mut out: Vec<i64> = Vec::new();
                out.push(v);
                out.append(&mut rest);
                Ok(out)
            },
            _ => Err(EvalError::TypeMismatch),
        }
    }
}

/// Evaluates an iterable to its elements.
pub fn iter_vals(env: &Vec<(u32, i64)>, it: &Iterable) -> (r: Result<Vec<i64>, EvalError>)
    ensures
        res_seq(r) == iter_vals_spec(env@, *it),
{
    match it {
        Iterable::RangeExcl(a, b) => {
            let va = eval(env, &**a)?;
            let vb = eval(env, &**b)?;
            match (va, vb) {
                (Value::Int(x), Value::Int(y)) => range_excl_vec(x, y),
                _ => Err(EvalError::TypeMismatch),
            }
        },
        Iterable::RangeIncl(a, b) => {
            let va = eval(env, &**a)?;
            let vb = eval(env, &**b)?;
            match (va, vb) {
                (Value::Int(x), Value::Int(y)) => range_incl_vec(x, y),
                _ => Err(EvalError::TypeMismatch),
            }
        },
        Iterable::Items(es) => {
            proof {
                assert(es@.skip(0) =~= es@);
            }
            eval_items(env, es, 0)
        },
    }
}

} // verus!
