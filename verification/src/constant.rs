//! The constant-evaluable array variant of the expansion engine: every
//! dimension is a fixed-stride numeric specification, so each dimension's
//! length is known from start, end and stride alone, as a constant context
//! requires.

use vstd::prelude::*;
use vstd::arithmetic::div_mod::{lemma_fundamental_div_mod, lemma_mod_bound};
use vstd::arithmetic::mul::{lemma_mul_inequality, lemma_mul_nonnegative};
use crate::ast::{ConstSpec, Expr, Val, Value, EvalError, vals_of};
use crate::eval::{EnvS, eval_spec, eval, res_of, in_i64};
use crate::expand::res_row;

verus! {

/// Whether a fixed-stride specification has a well-defined non-negative
/// length: the stride must not be zero, and its sign must agree with the
/// direction from start to end. Anything else is rejected outright rather
/// than silently miscomputed.
pub open spec fn const_valid(c: ConstSpec) -> bool {
    c.stride != 0 && (if c.stride > 0 {
        c.start <= c.end
    } else {
        c.start >= c.end
    })
}

/// How many elements a valid specification has: `(end - start) / stride + 1`,
/// the division taken in the direction of the stride.
pub open spec fn const_len(c: ConstSpec) -> int {
    if c.stride > 0 {
        (c.end - c.start) / (c.stride as int) + 1
    } else {
        (c.start - c.end) / (-(c.stride as int)) + 1
    }
}

/// The k-th element: `start + k * stride`.
pub open spec fn const_elem(c: ConstSpec, k: int) -> int {
    c.start + k * c.stride
}

/// The elements of a valid specification, in order.
pub open spec fn const_vals(c: ConstSpec) -> Seq<i64> {
    Seq::new(const_len(c) as nat, |k: int| const_elem(c, k) as i64)
}

/// Law (fixed-stride form): a valid specification has at least one element;
/// its k-th element is `start + k * stride`, which stays between start and
/// end on the side the stride's sign selects, and so fits in an `i64`.
pub proof fn lemma_const_vals(c: ConstSpec)
    requires
        const_valid(c),
    ensures
        const_len(c) >= 1,
        const_vals(c).len() == const_len(c),
        forall|k: int|
            0 <= k < const_len(c) ==> in_i64(#[trigger] const_elem(c, k)) && const_vals(c)[k]
                as int == const_elem(c, k),
        c.stride > 0 ==> forall|k: int|
            0 <= k < const_len(c) ==> c.start <= #[trigger] const_elem(c, k) <= c.end,
        c.stride < 0 ==> forall|k: int|
            0 <= k < const_len(c) ==> c.end <= #[trigger] const_elem(c, k) <= c.start,
{
    let s = c.stride as int;
    if c.stride > 0 {
        let w = c.end - c.start;
        let q = w / s;
        lemma_fundamental_div_mod(w, s);
        lemma_mod_bound(w, s);
        assert(q >= 0) by {
            if q <= -1 {
                lemma_mul_inequality(q, -1, s);
            }
        };
        assert forall|k: int| 0 <= k < const_len(c) implies c.start <= #[trigger] const_elem(c, k)
            <= c.end by {
            lemma_mul_inequality(k, q, s);
            lemma_mul_nonnegative(k, s);
            assert(k * s == s * k) by (nonlinear_arith);
            assert(q * s == s * q) by (nonlinear_arith);
        };
    } else {
        let m = -s;
        let w = c.start - c.end;
        let q = w / m;
        lemma_fundamental_div_mod(w, m);
        lemma_mod_bound(w, m);
        assert(q >= 0) by {
            if q <= -1 {
                lemma_mul_inequality(q, -1, m);
            }
        };
        assert forall|k: int| 0 <= k < const_len(c) implies c.end <= #[trigger] const_elem(c, k)
            <= c.start by {
            lemma_mul_inequality(k, q, m);
            lemma_mul_nonnegative(k, m);
            assert(k * m == m * k) by (nonlinear_arith);
            assert(q * m == m * q) by (nonlinear_arith);
            assert(k * s == -(k * m)) by (nonlinear_arith)
                requires
                    s == -m,
            ;
        };
    }
}

/// What expanding a body against a list of fixed-stride specifications
/// yields: the rules of the general engine, except that every dimension's
/// iterable is the fixed-stride numeric form, checked for a well-defined
/// constant length before anything runs.
pub open spec fn expand_const_spec(env: EnvS, body: Expr, cs: Seq<ConstSpec>) -> Result<
    Val,
    EvalError,
>
    decreases cs.len(), 0int,
{
    if cs.len() == 0 {
        eval_spec(env, body)
    } else if !const_valid(cs[0]) {
        Err(EvalError::BadStride)
    } else if const_len(cs[0]) > usize::MAX {
        Err(EvalError::TooLong)
    } else {
        match const_row(env, cs[0].binder, const_vals(cs[0]), body, cs.drop_first()) {
            Err(e) => Err(e),
            Ok(rs) => Ok(Val::List(rs)),
        }
    }
}

/// One constant dimension's row: one element per value of the binder, in
/// stride order. The first failure wins.
pub open spec fn const_row(
    env: EnvS,
    x: u32,
    vs: Seq<i64>,
    body: Expr,
    rest: Seq<ConstSpec>,
) -> Result<Seq<Val>, EvalError>
    decreases rest.len(), vs.len() + 1,
{
    if vs.len() == 0 {
        Ok(Seq::empty())
    } else {
        match expand_const_spec(env.push((x, vs[0])), body, rest) {
            Err(e) => Err(e),
            Ok(r) => match const_row(env, x, vs.drop_first(), body, rest) {
                Err(e) => Err(e),
                Ok(rs) => Ok(seq![r] + rs),
            },
        }
    }
}

/// Structure of one constant dimension's row: a successful row has exactly
/// one element per value of the binder, each the expansion with the binder
/// bound to that value; a failed row fails exactly as one of its steps does.
pub proof fn lemma_const_row_props(
    env: EnvS,
    x: u32,
    vs: Seq<i64>,
    body: Expr,
    rest: Seq<ConstSpec>,
)
    ensures
        match const_row(env, x, vs, body, rest) {
            Ok(rs) => rs.len() == vs.len() && forall|i: int|
                0 <= i < vs.len() ==> expand_const_spec(env.push((x, vs[i])), body, rest)
                    == Ok::<Val, EvalError>(rs[i]),
            Err(e) => exists|i: int|
                0 <= i < vs.len() && expand_const_spec(env.push((x, vs[i])), body, rest)
                    == Err::<Val, EvalError>(e),
        },
    decreases vs.len(),
{
    if vs.len() > 0 {
        lemma_const_row_props(env, x, vs.drop_first(), body, rest);
        match expand_const_spec(env.push((x, vs[0])), body, rest) {
            Err(e) => {
                assert(expand_const_spec(env.push((x, vs[0])), body, rest)
                    == Err::<Val, EvalError>(e));
            },
            Ok(r) => {
                match const_row(env, x, vs.drop_first(), body, rest) {
                    Err(e) => {
                        let i0 = choose|i: int|
                            0 <= i < vs.drop_first().len() && expand_const_spec(
                                env.push((x, vs.drop_first()[i])),
                                body,
                                rest,
                            ) == Err::<Val, EvalError>(e);
                        assert(vs.drop_first()[i0] == vs[i0 + 1]);
                        assert(expand_const_spec(env.push((x, vs[i0 + 1])), body, rest)
                            == Err::<Val, EvalError>(e));
                    },
                    Ok(rs) => {
                        assert forall|i: int| 0 <= i < vs.len() implies expand_const_spec(
                            env.push((x, vs[i])),
                            body,
                            rest,
                        ) == Ok::<Val, EvalError>((seq![r] + rs)[i]) by {
                            if i == 0 {
                                assert((seq![r] + rs)[0] == r);
                            } else {
                                assert(vs.drop_first()[i - 1] == vs[i]);
                                assert(expand_const_spec(
                                    env.push((x, vs.drop_first()[i - 1])),
                                    body,
                                    rest,
                                ) == Ok::<Val, EvalError>(rs[i - 1]));
                                assert((seq![r] + rs)[i] == rs[i - 1]);
                            }
                        };
                    },
                }
            },
        }
    }
}

/// Law: the constant variant follows the general engine's dimension rule —
/// a successful expansion has exactly `const_len` outer elements, the k-th
/// being the expansion of the body against the remaining specifications with
/// the binder bound to `start + k * stride`.
pub proof fn lemma_const_dims(env: EnvS, body: Expr, cs: Seq<ConstSpec>, rs: Seq<Val>)
    requires
        cs.len() > 0,
        expand_const_spec(env, body, cs) == Ok::<Val, EvalError>(Val::List(rs)),
    ensures
        const_valid(cs[0]),
        rs.len() == const_len(cs[0]),
        forall|k: int|
            0 <= k < const_len(cs[0]) ==> expand_const_spec(
                env.push((cs[0].binder, const_vals(cs[0])[k])),
                body,
                cs.drop_first(),
            ) == Ok::<Val, EvalError>(rs[k]),
{
    lemma_const_vals(cs[0]);
    lemma_const_row_props(env, cs[0].binder, const_vals(cs[0]), body, cs.drop_first());
}

/// The elements of a valid fixed-stride specification.
fn const_elems(c: &ConstSpec) -> (r: Result<Vec<i64>, EvalError>)
    requires
        const_valid(*c),
        const_len(*c) <= usize::MAX,
    ensures
        r is Ok,
        r matches Ok(v) && v@ == const_vals(*c),
{
    proof {
        lemma_const_vals(*c);
    }
    let len128: i128 = if c.stride > 0 {
        (c.end as i128 - c.start as i128) / (c.stride as i128) + 1
    } else {
        (c.start as i128 - c.end as i128) / (-(c.stride as i128)) + 1
    };
    let len: usize = len128 as usize;
    let mut out: Vec<i64> = Vec::new();
    let mut k: usize = 0;
    while k < len
        invariant
            const_valid(*c),
            len as int == const_len(*c),
            0 <= k <= len,
            out@.len() == k,
            forall|j: int| 0 <= j < k ==> out@[j] as int == const_elem(*c, j),
        decreases len - k,
    {
        proof {
            lemma_const_vals(*c);
            assert(in_i64(const_elem(*c, k as int)));
            assert((k as int) * (c.stride as int) == const_elem(*c, k as int) - c.start);
        }
        let e128: i128 = c.start as i128 + (k as i128) * (c.stride as i128);
        out.push(e128 as i64);
        k += 1;
    }
    proof {
        lemma_const_vals(*c);
        assert(out@ =~= const_vals(*c));
    }
    Ok(out)
}

/// Expands a body expression against an ordered list of fixed-stride
/// specifications, outermost first, starting from no bindings.
pub fn expand_const(body: &Expr, cs: &Vec<ConstSpec>) -> (r: Result<Value, EvalError>)
    ensures
        res_of(r) == expand_const_spec(Seq::empty(), *body, cs@),
{
    let mut env: Vec<(u32, i64)> = Vec::new();
    proof {
        assert(cs@.skip(0) =~= cs@);
    }
    expand_const_in(&mut env, body, cs, 0)
}

/// Expands the body against the fixed-stride specifications from position
/// `k` on. The environment is handed back as it came.
fn expand_const_in(
    env: &mut Vec<(u32, i64)>,
    body: &Expr,
    cs: &Vec<ConstSpec>,
    k: usize,
) -> (r: Result<Value, EvalError>)
    requires
        k <= cs@.len(),
    ensures
        final(env)@ == old(env)@,
        res_of(r) == expand_const_spec(old(env)@, *body, cs@.skip(k as int)),
    decreases cs@.len() - k, 0int,
{
    if k == cs.len() {
        proof {
            assert(cs@.skip(k as int) =~= Seq::<ConstSpec>::empty());
        }
        eval(env, body)
    } else {
        proof {
            assert(cs@.skip(k as int)[0] == cs@[k as int]);
            assert(cs@.skip(k as int).drop_first() =~= cs@.skip(k as int + 1));
        }
        let c = &cs[k];
        if c.stride == 0 || (c.stride > 0 && c.start > c.end) || (c.stride < 0 && c.start
            < c.end) {
            return Err(EvalError::BadStride);
        }
        proof {
            lemma_const_vals(*c);
        }
        let len_fits: bool = {
            let len128: i128 = if c.stride > 0 {
                (c.end as i128 - c.start as i128) / (c.stride as i128) + 1
            } else {
                (c.start as i128 - c.end as i128) / (-(c.stride as i128)) + 1
            };
            len128 <= usize::MAX as i128
        };
        if !len_fits {
            return Err(EvalError::TooLong);
        }
        let vals = match const_elems(c) {
            Ok(v) => v,
            Err(e) => {
                return Err(e);
            },
        };
        proof {
            assert(vals@.skip(0) =~= vals@);
        }
        match const_rows(env, c.binder, &vals, 0, body, cs, k + 1) {
            Ok(rows) => Ok(Value::List(rows)),
            Err(e) => Err(e),
        }
    }
}

/// Runs one constant dimension: element by element from position `i` on,
/// binding the binder and expanding the body against the remaining
/// specifications. The environment is handed back as it came.
#[verifier::rlimit(50)]
fn const_rows(
    env: &mut Vec<(u32, i64)>,
    x: u32,
    vals: &Vec<i64>,
    i: usize,
    body: &Expr,
    cs: &Vec<ConstSpec>,
    k: usize,
) -> (r: Result<Vec<Value>, EvalError>)
    requires
        k <= cs@.len(),
        i <= vals@.len(),
    ensures
        final(env)@ == old(env)@,
        res_row(r) == const_row(old(env)@, x, vals@.skip(i as int), *body, cs@.skip(k as int)),
    decreases cs@.len() - k, vals@.len() - i + 1,
{
    if i == vals.len() {
        proof {
            assert(vals@.skip(i as int) =~= Seq::<i64>::empty());
        }
        Ok(Vec::new())
    } else {
        proof {
            assert(vals@.skip(i as int)[0] == vals@[i as int]);
            assert(vals@.skip(i as int).drop_first() =~= vals@.skip(i as int + 1));
        }
        env.push((x, vals[i]));
        let r0 = expand_const_in(env, body, cs, k);
        let _top: Option<(u32, i64)> = env.pop();
        proof {
            assert(env@ =~= old(env)@);
        }
        match r0 {
            Err(e) => Err(e),
            Ok(r) => match const_rows(env, x, vals, i + 1, body, cs, k) {
                Err(e) => Err(e),
                Ok(mut rs) => {
                    let ghost rv = crate::ast::val_of(r);
                    let ghost rsv = rs@;
                    let mut out: Vec<Value> = Vec::new();
                    out.push(r);
                    out.append(&mut rs);
                    proof {
                        assert(out@.drop_first() =~= rsv);
                        assert(vals_of(out@) =~= seq![rv] + vals_of(rsv));
                    }
                    Ok(out)
                },
            },
        }
    }
}

} // verus!
