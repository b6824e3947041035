//! The expansion engine: a body expression together with an ordered list of
//! iteration specifications lowers into a nested sequence of values.
//!
//! The first specification in the list is the outermost dimension and the
//! last one the innermost; each dimension binds its binder (if it names one)
//! to the elements of its iterable in order, and the base case with no
//! specifications left evaluates the body exactly once.

use vstd::prelude::*;
use crate::ast::{Expr, IterSpec, Iterable, Val, Value, EvalError, vals_of, expr_refs};
use crate::eval::{EnvS, eval_spec, eval, iter_vals_spec, iter_vals, res_of};

verus! {

/// The environment a dimension hands to the levels nested inside it: the
/// named form binds its binder to the element, the discarded and bare forms
/// bind nothing.
pub open spec fn bind_env(env: EnvS, b: Option<u32>, v: i64) -> EnvS {
    match b {
        Some(x) => env.push((x, v)),
        None => env,
    }
}

/// What expanding a body against a list of iteration specifications yields.
///
/// No specifications left: the body's value. Otherwise the first (outermost)
/// specification contributes one sequence element per element of its
/// iterable, each the expansion of the body against the remaining
/// specifications with the binder bound to that element.
pub open spec fn expand_spec(env: EnvS, body: Expr, specs: Seq<IterSpec>) -> Result<Val, EvalError>
    decreases specs.len(), 0int,
{
    if specs.len() == 0 {
        eval_spec(env, body)
    } else {
        match iter_vals_spec(env, specs[0].iterable()) {
            Err(e) => Err(e),
            Ok(vs) => match expand_row(env, specs[0].binder(), vs, body, specs.drop_first()) {
                Err(e) => Err(e),
                Ok(rs) => Ok(Val::List(rs)),
            },
        }
    }
}

/// One dimension's row: the expansions of the body against the remaining
/// specifications, one per element, in iteration order. The first failure
/// wins.
pub open spec fn expand_row(
    env: EnvS,
    b: Option<u32>,
    vs: Seq<i64>,
    body: Expr,
    rest: Seq<IterSpec>,
) -> Result<Seq<Val>, EvalError>
    decreases rest.len(), vs.len() + 1,
{
    if vs.len() == 0 {
        Ok(Seq::empty())
    } else {
        match expand_spec(bind_env(env, b, vs[0]), body, rest) {
            Err(e) => Err(e),
            Ok(r) => match expand_row(env, b, vs.drop_first(), body, rest) {
                Err(e) => Err(e),
                Ok(rs) => Ok(seq![r] + rs),
            },
        }
    }
}

/// Maps an executable row result to its model.
pub open spec fn res_row(r: Result<Vec<Value>, EvalError>) -> Result<Seq<Val>, EvalError> {
    match r {
        Ok(v) => Ok(vals_of(v@)),
        Err(e) => Err(e),
    }
}

/// Expands a body expression against an ordered list of iteration
/// specifications, outermost first, starting from no bindings.
pub fn expand(body: &Expr, specs: &Vec<IterSpec>) -> (r: Result<Value, EvalError>)
    ensures
        res_of(r) == expand_spec(Seq::empty(), *body, specs@),
{
    let mut env: Vec<(u32, i64)> = Vec::new();
    proof {
        assert(specs@.skip(0) =~= specs@);
    }
    expand_in(&mut env, body, specs, 0)
}

/// Expands the body against the specifications from position `k` on, in the
/// given environment. The environment is handed back as it came.
fn expand_in(
    env: &mut Vec<(u32, i64)>,
    body: &Expr,
    specs: &Vec<IterSpec>,
    k: usize,
) -> (r: Result<Value, EvalError>)
    requires
        k <= specs@.len(),
    ensures
        final(env)@ == old(env)@,
        res_of(r) == expand_spec(old(env)@, *body, specs@.skip(k as int)),
    decreases specs@.len() - k, 0int,
{
    if k == specs.len() {
        proof {
            assert(specs@.skip(k as int) =~= Seq::<IterSpec>::empty());
        }
        eval(env, body)
    } else {
        proof {
            assert(specs@.skip(k as int)[0] == specs@[k as int]);
            assert(specs@.skip(k as int).drop_first() =~= specs@.skip(k as int + 1));
        }
        let (bopt, it) = match &specs[k] {
            IterSpec::Named(x, it) => (Some(*x), it),
            IterSpec::Discarded(it) => (None, it),
            IterSpec::Bare(it) => (None, it),
        };
        let vals = match iter_vals(env, it) {
            Ok(v) => v,
            Err(e) => {
                return Err(e);
            },
        };
        proof {
            assert(vals@.skip(0) =~= vals@);
        }
        match expand_rows(env, bopt, &vals, 0, body, specs, k + 1) {
            Ok(rows) => Ok(Value::List(rows)),
            Err(e) => Err(e),
        }
    }
}

/// Runs one dimension: element by element from position `i` on, binding the
/// binder (if any) and expanding the body against the remaining
/// specifications. The environment is handed back as it came.
#[verifier::rlimit(50)]
#[verifier::spinoff_prover]
fn expand_rows(
    env: &mut Vec<(u32, i64)>,
    bopt: Option<u32>,
    vals: &Vec<i64>,
    i: usize,
    body: &Expr,
    specs: &Vec<IterSpec>,
    k: usize,
) -> (r: Result<Vec<Value>, EvalError>)
    requires
        k <= specs@.len(),
        i <= vals@.len(),
    ensures
        final(env)@ == old(env)@,
        res_row(r) == expand_row(old(env)@, bopt, vals@.skip(i as int), *body, specs@.skip(k as int)),
    decreases specs@.len() - k, vals@.len() - i + 1,
{
    if i == vals.len() {
        proof {
            assert(vals@.skip(i as int) =~= Seq::<i64>::empty());
        }
        Ok(Vec::new())
    } else {
        proof {
            assert(vals@.skip(i as int)[0] == vals@[i as int]);
            assert(vals@.skip(i as int).drop_first() =~= vals@.skip(i as int + 1));
        }
        let pushed: bool = match bopt {
            Some(x) => {
                env.push((x, vals[i]));
                true
            },
            None => false,
        };
        let r0 = expand_in(env, body, specs, k);
        if pushed {
            let _top: Option<(u32, i64)> = env.pop();
        }
        proof {
            assert(env@ =~= old(env)@);
        }
        match r0 {
            Err(e) => Err(e),
            Ok(r) => match expand_rows(env, bopt, vals, i + 1, body, specs, k) {
                Err(e) => Err(e),
                Ok(mut rs) => {
                    let ghost rv = crate::ast::val_of(r);
                    let ghost rsv = rs@;
                    let mut out: Vec<Value> = Vec::new();
                    out.push(r);
                    out.append(&mut rs);
                    proof {
                        assert(out@.drop_first() =~= rsv);
                        assert(vals_of(out@) =~= seq![rv] + vals_of(rsv));
                    }
                    Ok(out)
                },
            },
        }
    }
}

/// Law: with no iteration specifications the expansion is the body's value,
/// evaluated exactly once.
pub proof fn lemma_expand_empty(env: EnvS, body: Expr)
    ensures
        expand_spec(env, body, Seq::empty()) == eval_spec(env, body),
{
}

/// Structure of one dimension's row: a successful row has exactly one
/// element per iterable element, each the expansion with the binder bound to
/// that element; a failed row fails exactly as one of its steps does.
pub proof fn lemma_expand_row_props(
    env: EnvS,
    b: Option<u32>,
    vs: Seq<i64>,
    body: Expr,
    rest: Seq<IterSpec>,
)
    ensures
        match expand_row(env, b, vs, body, rest) {
            Ok(rs) => rs.len() == vs.len() && forall|i: int|
                0 <= i < vs.len() ==> expand_spec(bind_env(env, b, vs[i]), body, rest)
                    == Ok::<Val, EvalError>(rs[i]),
            Err(e) => exists|i: int|
                0 <= i < vs.len() && expand_spec(bind_env(env, b, vs[i]), body, rest)
                    == Err::<Val, EvalError>(e),
        },
    decreases vs.len(),
{
    if vs.len() > 0 {
        lemma_expand_row_props(env, b, vs.drop_first(), body, rest);
        match expand_spec(bind_env(env, b, vs[0]), body, rest) {
            Err(e) => {
                assert(expand_spec(bind_env(env, b, vs[0]), body, rest)
                    == Err::<Val, EvalError>(e));
            },
            Ok(r) => {
                match expand_row(env, b, vs.drop_first(), body, rest) {
                    Err(e) => {
                        let i0 = choose|i: int|
                            0 <= i < vs.drop_first().len() && expand_spec(
                                bind_env(env, b, vs.drop_first()[i]),
                                body,
                                rest,
                            ) == Err::<Val, EvalError>(e);
                        assert(vs.drop_first()[i0] == vs[i0 + 1]);
                        assert(expand_spec(bind_env(env, b, vs[i0 + 1]), body, rest)
                            == Err::<Val, EvalError>(e));
                    },
                    Ok(rs) => {
                        assert forall|i: int| 0 <= i < vs.len() implies expand_spec(
                            bind_env(env, b, vs[i]),
                            body,
                            rest,
                        ) == Ok::<Val, EvalError>((seq![r] + rs)[i]) by {
                            if i == 0 {
                                assert((seq![r] + rs)[0] == r);
                            } else {
                                assert(vs.drop_first()[i - 1] == vs[i]);
                                assert(expand_spec(
                                    bind_env(env, b, vs.drop_first()[i - 1]),
                                    body,
                                    rest,
                                ) == Ok::<Val, EvalError>(rs[i - 1]));
                                assert((seq![r] + rs)[i] == rs[i - 1]);
                            }
                        };
                    },
                }
            },
        }
    }
}

/// Law (dimension law): a successful expansion with at least one
/// specification is a sequence with exactly one element per element of the
/// outermost iterable, the i-th being the expansion of the body against the
/// remaining specifications with the binder bound to the i-th element.
pub proof fn lemma_expand_dims(
    env: EnvS,
    body: Expr,
    specs: Seq<IterSpec>,
    vs: Seq<i64>,
    rs: Seq<Val>,
)
    requires
        specs.len() > 0,
        iter_vals_spec(env, specs[0].iterable()) == Ok::<Seq<i64>, EvalError>(vs),
        expand_spec(env, body, specs) == Ok::<Val, EvalError>(Val::List(rs)),
    ensures
        rs.len() == vs.len(),
        forall|i: int|
            0 <= i < vs.len() ==> expand_spec(
                bind_env(env, specs[0].binder(), vs[i]),
                body,
                specs.drop_first(),
            ) == Ok::<Val, EvalError>(rs[i]),
{
    lemma_expand_row_props(env, specs[0].binder(), vs, body, specs.drop_first());
}

/// Law: one specification over an iterable with `n` elements yields a
/// sequence of length exactly `n` whose i-th element is the body's value
/// with the binder (if the specification names one) bound to the i-th
/// element, in iteration order.
pub proof fn lemma_expand_single(env: EnvS, body: Expr, s: IterSpec, vs: Seq<i64>, rs: Seq<Val>)
    requires
        iter_vals_spec(env, s.iterable()) == Ok::<Seq<i64>, EvalError>(vs),
        expand_spec(env, body, seq![s]) == Ok::<Val, EvalError>(Val::List(rs)),
    ensures
        rs.len() == vs.len(),
        forall|i: int|
            0 <= i < vs.len() ==> eval_spec(bind_env(env, s.binder(), vs[i]), body)
                == Ok::<Val, EvalError>(rs[i]),
{
    lemma_expand_dims(env, body, seq![s], vs, rs);
    assert forall|i: int| 0 <= i < vs.len() implies eval_spec(bind_env(env, s.binder(), vs[i]), body)
        == Ok::<Val, EvalError>(rs[i]) by {
        assert(seq![s].drop_first() =~= Seq::<IterSpec>::empty());
        assert(expand_spec(bind_env(env, s.binder(), vs[i]), body, Seq::empty())
            == eval_spec(bind_env(env, s.binder(), vs[i]), body));
    };
}

/// Law (nesting): with two specifications the outer dimension follows the
/// first-listed one, and each of its elements is the expansion of the body
/// against the second specification alone, with the first specification's
/// binder held fixed for that outer step.
pub proof fn lemma_expand_nesting(
    env: EnvS,
    body: Expr,
    s1: IterSpec,
    s2: IterSpec,
    vs: Seq<i64>,
    rs: Seq<Val>,
)
    requires
        iter_vals_spec(env, s1.iterable()) == Ok::<Seq<i64>, EvalError>(vs),
        expand_spec(env, body, seq![s1, s2]) == Ok::<Val, EvalError>(Val::List(rs)),
    ensures
        rs.len() == vs.len(),
        forall|i: int|
            0 <= i < vs.len() ==> expand_spec(bind_env(env, s1.binder(), vs[i]), body, seq![s2])
                == Ok::<Val, EvalError>(rs[i]),
{
    lemma_expand_dims(env, body, seq![s1, s2], vs, rs);
    assert(seq![s1, s2].drop_first() =~= seq![s2]);
}

/// An extra binding for a name the expression never references does not
/// change what the expression evaluates to.
pub proof fn lemma_eval_unref(env: EnvS, x: u32, v: i64, e: Expr)
    requires
        !expr_refs(e, x),
    ensures
        eval_spec(env.push((x, v)), e) == eval_spec(env, e),
    decreases e,
{
    match e {
        Expr::Lit(_) => {},
        Expr::Var(_) => {
            assert(env.push((x, v)).drop_last() =~= env);
        },
        Expr::Add(a, b) => {
            lemma_eval_unref(env, x, v, *a);
            lemma_eval_unref(env, x, v, *b);
        },
        Expr::Sub(a, b) => {
            lemma_eval_unref(env, x, v, *a);
            lemma_eval_unref(env, x, v, *b);
        },
        Expr::Mul(a, b) => {
            lemma_eval_unref(env, x, v, *a);
            lemma_eval_unref(env, x, v, *b);
        },
        Expr::Fmt(a) => {
            lemma_eval_unref(env, x, v, *a);
        },
    }
}

/// One dimension over the same elements: naming a binder the body never
/// references changes nothing against discarding it.
proof fn lemma_row_unref(env: EnvS, x: u32, vs: Seq<i64>, body: Expr)
    requires
        !expr_refs(body, x),
    ensures
        expand_row(env, Some(x), vs, body, Seq::empty()) == expand_row(
            env,
            None,
            vs,
            body,
            Seq::empty(),
        ),
    decreases vs.len(),
{
    if vs.len() > 0 {
        lemma_eval_unref(env, x, vs[0], body);
        lemma_row_unref(env, x, vs.drop_first(), body);
        assert(expand_spec(bind_env(env, Some(x), vs[0]), body, Seq::empty()) == eval_spec(
            env.push((x, vs[0])),
            body,
        ));
        assert(expand_spec(bind_env(env, None, vs[0]), body, Seq::empty()) == eval_spec(
            env,
            body,
        ));
        assert(expand_spec(bind_env(env, Some(x), vs[0]), body, Seq::empty()) == expand_spec(
            bind_env(env, None, vs[0]),
            body,
            Seq::empty(),
        ));
    }
}

/// Law (discarded-binder equivalence): over one specification whose binder
/// the body never references, the named form, the discarded form and the
/// bare form are observably identical.
pub proof fn lemma_discarded_binder(env: EnvS, body: Expr, x: u32, it: Iterable)
    requires
        !expr_refs(body, x),
    ensures
        expand_spec(env, body, seq![IterSpec::Named(x, it)]) == expand_spec(
            env,
            body,
            seq![IterSpec::Discarded(it)],
        ),
        expand_spec(env, body, seq![IterSpec::Bare(it)]) == expand_spec(
            env,
            body,
            seq![IterSpec::Discarded(it)],
        ),
{
    assert(seq![IterSpec::Named(x, it)].drop_first() =~= Seq::<IterSpec>::empty());
    assert(seq![IterSpec::Discarded(it)].drop_first() =~= Seq::<IterSpec>::empty());
    assert(seq![IterSpec::Bare(it)].drop_first() =~= Seq::<IterSpec>::empty());
    match iter_vals_spec(env, it) {
        Err(_) => {},
        Ok(vs) => {
            lemma_row_unref(env, x, vs, body);
        },
    }
}

/// Law (grouping invariance): a bare iterable is sugar for the discarded
/// form, whatever specifications follow.
pub proof fn lemma_bare_sugar(env: EnvS, body: Expr, it: Iterable, rest: Seq<IterSpec>)
    ensures
        expand_spec(env, body, seq![IterSpec::Bare(it)] + rest) == expand_spec(
            env,
            body,
            seq![IterSpec::Discarded(it)] + rest,
        ),
{
    assert((seq![IterSpec::Bare(it)] + rest).drop_first() =~= rest);
    assert((seq![IterSpec::Discarded(it)] + rest).drop_first() =~= rest);
    assert((seq![IterSpec::Bare(it)] + rest)[0] == IterSpec::Bare(it));
    assert((seq![IterSpec::Discarded(it)] + rest)[0] == IterSpec::Discarded(it));
}

} // verus!
