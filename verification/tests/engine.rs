use hellors::{expand, EvalError, Expr, IterSpec, Iterable, Value};

fn lit(n: i64) -> Expr {
    Expr::Lit(n)
}

fn var(x: u32) -> Expr {
    Expr::Var(x)
}

fn eadd(a: Expr, b: Expr) -> Expr {
    Expr::Add(Box::new(a), Box::new(b))
}

fn emul(a: Expr, b: Expr) -> Expr {
    Expr::Mul(Box::new(a), Box::new(b))
}

fn efmt(a: Expr) -> Expr {
    Expr::Fmt(Box::new(a))
}

fn range_excl(a: Expr, b: Expr) -> Iterable {
    Iterable::RangeExcl(Box::new(a), Box::new(b))
}

fn range_incl(a: Expr, b: Expr) -> Iterable {
    Iterable::RangeIncl(Box::new(a), Box::new(b))
}

fn vint(n: i64) -> Value {
    Value::Int(n)
}

fn vstr(s: &str) -> Value {
    Value::Str(s.chars().collect())
}

fn vlist(vs: Vec<Value>) -> Value {
    Value::List(vs)
}

fn veq(a: &Value, b: &Value) -> bool {
    match (a, b) {
        (Value::Int(x), Value::Int(y)) => x == y,
        (Value::Str(x), Value::Str(y)) => x == y,
        (Value::List(x), Value::List(y)) => {
            x.len() == y.len() && x.iter().zip(y.iter()).all(|(p, q)| veq(p, q))
        }
        _ => false,
    }
}

#[test]
fn expand_no_specs_is_the_body_once() {
    let r = expand(&lit(7), &vec![]).unwrap();
    assert!(veq(&r, &vint(7)));
}

#[test]
fn expand_no_specs_unbound_binder_errs() {
    let r = expand(&var(0), &vec![]);
    assert!(matches!(r, Err(EvalError::UnboundVar)));
}

#[test]
fn expand_named_binds_each_element_in_order() {
    let specs = vec![IterSpec::Named(0, range_excl(lit(0), lit(3)))];
    let r = expand(&var(0), &specs).unwrap();
    assert!(veq(&r, &vlist(vec![vint(0), vint(1), vint(2)])));
}

#[test]
fn expand_bare_iterable_counts_without_binding() {
    let specs = vec![IterSpec::Bare(range_excl(lit(0), lit(3)))];
    let r = expand(&lit(1), &specs).unwrap();
    assert!(veq(&r, &vlist(vec![vint(1), vint(1), vint(1)])));
}

#[test]
fn expand_discarded_matches_named_when_binder_unused() {
    let body = eadd(lit(2), lit(3));
    let named = vec![IterSpec::Named(9, range_excl(lit(0), lit(4)))];
    let discarded = vec![IterSpec::Discarded(range_excl(lit(0), lit(4)))];
    let bare = vec![IterSpec::Bare(range_excl(lit(0), lit(4)))];
    let rn = expand(&body, &named).unwrap();
    let rd = expand(&body, &discarded).unwrap();
    let rb = expand(&body, &bare).unwrap();
    assert!(veq(&rn, &rd));
    assert!(veq(&rb, &rd));
}

#[test]
fn expand_empty_range_gives_empty_sequence() {
    let specs = vec![IterSpec::Named(0, range_excl(lit(3), lit(3)))];
    let r = expand(&var(0), &specs).unwrap();
    assert!(veq(&r, &vlist(vec![])));
}

#[test]
fn expand_items_iterates_the_listed_values() {
    let specs = vec![IterSpec::Named(7, Iterable::Items(vec![lit(5), lit(3), lit(8)]))];
    let r = expand(&var(7), &specs).unwrap();
    assert!(veq(&r, &vlist(vec![vint(5), vint(3), vint(8)])));
}

#[test]
fn expand_nested_dependent_ranges() {
    // expand(x * y, {x, 1..=2}, {y, 1..=x}) == [[1], [2, 4]]
    let body = emul(var(0), var(1));
    let specs = vec![
        IterSpec::Named(0, range_incl(lit(1), lit(2))),
        IterSpec::Named(1, range_incl(lit(1), var(0))),
    ];
    let r = expand(&body, &specs).unwrap();
    let want = vlist(vec![
        vlist(vec![vint(1)]),
        vlist(vec![vint(2), vint(4)]),
    ]);
    assert!(veq(&r, &want));
}

#[test]
fn expand_formatted_outer_named_inner_discarded() {
    // expand(format of x, {x, 0..2}, 0..3) == [["0","0","0"], ["1","1","1"]]
    let body = efmt(var(0));
    let specs = vec![
        IterSpec::Named(0, range_excl(lit(0), lit(2))),
        IterSpec::Bare(range_excl(lit(0), lit(3))),
    ];
    let r = expand(&body, &specs).unwrap();
    let want = vlist(vec![
        vlist(vec![vstr("0"), vstr("0"), vstr("0")]),
        vlist(vec![vstr("1"), vstr("1"), vstr("1")]),
    ]);
    assert!(veq(&r, &want));
}

#[test]
fn expand_first_spec_is_the_outer_dimension() {
    // expand(10 * x + y, {x, 0..2}, {y, 0..3}): the outer index follows x.
    let body = eadd(emul(lit(10), var(0)), var(1));
    let specs = vec![
        IterSpec::Named(0, range_excl(lit(0), lit(2))),
        IterSpec::Named(1, range_excl(lit(0), lit(3))),
    ];
    let r = expand(&body, &specs).unwrap();
    let want = vlist(vec![
        vlist(vec![vint(0), vint(1), vint(2)]),
        vlist(vec![vint(10), vint(11), vint(12)]),
    ]);
    assert!(veq(&r, &want));
}

#[test]
fn expand_overflow_is_reported() {
    let body = eadd(lit(i64::MAX), lit(1));
    let r = expand(&body, &vec![]);
    assert!(matches!(r, Err(EvalError::Overflow)));
}

#[test]
fn expand_arithmetic_over_a_string_errs() {
    let body = eadd(efmt(lit(1)), lit(2));
    let r = expand(&body, &vec![]);
    assert!(matches!(r, Err(EvalError::TypeMismatch)));
}

#[test]
fn expand_formats_multi_digit_numbers() {
    let r = expand(&efmt(lit(120)), &vec![]).unwrap();
    assert!(veq(&r, &vstr("120")));
}

#[test]
fn expand_full_inclusive_range_is_too_long() {
    let specs = vec![IterSpec::Bare(range_incl(lit(i64::MIN), lit(i64::MAX)))];
    let r = expand(&lit(1), &specs);
    assert!(matches!(r, Err(EvalError::TooLong)));
}

#[test]
fn expand_formats_negative_numbers() {
    let r = expand(&efmt(lit(-12)), &vec![]).unwrap();
    assert!(veq(&r, &vstr("-12")));
}

#[test]
fn expand_descending_range_is_empty() {
    let specs = vec![IterSpec::Named(0, range_excl(lit(5), lit(2)))];
    let r = expand(&var(0), &specs).unwrap();
    assert!(veq(&r, &vlist(vec![])));
}

#[test]
fn expand_inner_binder_shadows_outer() {
    let specs = vec![
        IterSpec::Named(0, range_excl(lit(0), lit(2))),
        IterSpec::Named(0, range_excl(lit(5), lit(6))),
    ];
    let r = expand(&var(0), &specs).unwrap();
    let want = vlist(vec![vlist(vec![vint(5)]), vlist(vec![vint(5)])]);
    assert!(veq(&r, &want));
}
