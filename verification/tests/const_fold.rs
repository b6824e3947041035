use hellors::{expand_const, fold, Combiner, CombinerKind, ConstSpec, EvalError, Expr, Value};

fn lit(n: i64) -> Expr {
    Expr::Lit(n)
}

fn var(x: u32) -> Expr {
    Expr::Var(x)
}

fn eadd(a: Expr, b: Expr) -> Expr {
    Expr::Add(Box::new(a), Box::new(b))
}

fn esub(a: Expr, b: Expr) -> Expr {
    Expr::Sub(Box::new(a), Box::new(b))
}

fn emul(a: Expr, b: Expr) -> Expr {
    Expr::Mul(Box::new(a), Box::new(b))
}

fn ints(v: &Value) -> Vec<i64> {
    match v {
        Value::List(l) => l
            .iter()
            .map(|e| match e {
                Value::Int(n) => *n,
                _ => panic!("expected an integer element"),
            })
            .collect(),
        _ => panic!("expected a list"),
    }
}

fn as_int(v: &Value) -> i64 {
    match v {
        Value::Int(n) => *n,
        _ => panic!("expected an integer"),
    }
}

#[test]
fn const_array_with_explicit_stride() {
    // expand_const(x, {x, 2, 4, 1}) == [2, 3, 4], of length (4-2)/1+1.
    let r = expand_const(&var(0), &vec![ConstSpec::new(0, 2, 4, 1)]).unwrap();
    assert_eq!(ints(&r), vec![2, 3, 4]);
}

#[test]
fn const_array_stride_defaults_to_one() {
    let r = expand_const(&var(0), &vec![ConstSpec::range(0, 2, 4)]).unwrap();
    assert_eq!(ints(&r), vec![2, 3, 4]);
}

#[test]
fn const_array_start_defaults_to_one() {
    let r = expand_const(&var(0), &vec![ConstSpec::upto(0, 3)]).unwrap();
    assert_eq!(ints(&r), vec![1, 2, 3]);
}

#[test]
fn const_array_wide_stride_stops_at_end() {
    let r = expand_const(&var(0), &vec![ConstSpec::new(0, 2, 5, 2)]).unwrap();
    assert_eq!(ints(&r), vec![2, 4]);
}

#[test]
fn const_array_negative_stride_descends() {
    let r = expand_const(&var(0), &vec![ConstSpec::new(0, 4, 2, -1)]).unwrap();
    assert_eq!(ints(&r), vec![4, 3, 2]);
}

#[test]
fn const_array_zero_stride_is_rejected() {
    let r = expand_const(&var(0), &vec![ConstSpec::new(0, 2, 4, 0)]);
    assert!(matches!(r, Err(EvalError::BadStride)));
}

#[test]
fn const_array_stride_against_direction_is_rejected() {
    let down = expand_const(&var(0), &vec![ConstSpec::new(0, 2, 4, -1)]);
    assert!(matches!(down, Err(EvalError::BadStride)));
    let up = expand_const(&var(0), &vec![ConstSpec::new(0, 4, 2, 1)]);
    assert!(matches!(up, Err(EvalError::BadStride)));
}

#[test]
fn const_array_spanning_every_integer_is_too_long() {
    let r = expand_const(&var(0), &vec![ConstSpec::new(0, i64::MIN, i64::MAX, 1)]);
    assert!(matches!(r, Err(EvalError::TooLong)));
}

#[test]
fn const_array_single_point() {
    let r = expand_const(&var(0), &vec![ConstSpec::new(0, 3, 3, 1)]).unwrap();
    assert_eq!(ints(&r), vec![3]);
}

#[test]
fn const_array_nests_like_the_general_form() {
    let body = emul(var(0), var(1));
    let specs = vec![ConstSpec::new(0, 1, 2, 1), ConstSpec::new(1, 1, 2, 1)];
    let r = expand_const(&body, &specs).unwrap();
    match &r {
        Value::List(rows) => {
            assert_eq!(rows.len(), 2);
            assert_eq!(ints(&rows[0]), vec![1, 2]);
            assert_eq!(ints(&rows[1]), vec![2, 4]);
        }
        _ => panic!("expected a nested list"),
    }
}

#[test]
fn fold_with_a_callable_combiner() {
    // fold(add, 1, {2}) with add(a, b) = a + b*2 gives 5.
    let c = Combiner {
        kind: CombinerKind::Callable,
        left: 0,
        right: 1,
        body: eadd(var(0), emul(var(1), lit(2))),
    };
    let r = fold(&c, &lit(1), &vec![lit(2)]).unwrap();
    assert_eq!(as_int(&r), 5);
}

#[test]
fn fold_with_a_macro_like_combiner() {
    // fold(add!, 1, {2}) with add!(a, b) = a + b + 1 gives 4.
    let c = Combiner {
        kind: CombinerKind::MacroLike,
        left: 0,
        right: 1,
        body: eadd(eadd(var(0), var(1)), lit(1)),
    };
    let r = fold(&c, &lit(1), &vec![lit(2)]).unwrap();
    assert_eq!(as_int(&r), 4);
}

#[test]
fn fold_with_no_operands_is_the_seed() {
    let c = Combiner {
        kind: CombinerKind::Callable,
        left: 0,
        right: 1,
        body: eadd(var(0), var(1)),
    };
    let r = fold(&c, &lit(9), &vec![]).unwrap();
    assert_eq!(as_int(&r), 9);
}

#[test]
fn fold_reduces_strictly_left_to_right() {
    // ((10 - 1) - 2) - 3 == 4; any other association differs.
    let c = Combiner {
        kind: CombinerKind::Callable,
        left: 0,
        right: 1,
        body: esub(var(0), var(1)),
    };
    let r = fold(&c, &lit(10), &vec![lit(1), lit(2), lit(3)]).unwrap();
    assert_eq!(as_int(&r), 4);
    assert_ne!(as_int(&r), 10 - (1 - (2 - 3)));
}

#[test]
fn fold_failing_seed_errs() {
    let c = Combiner {
        kind: CombinerKind::Callable,
        left: 0,
        right: 1,
        body: eadd(var(0), var(1)),
    };
    let r = fold(&c, &var(5), &vec![lit(2)]);
    assert!(matches!(r, Err(EvalError::UnboundVar)));
}
