//! Abstract syntax for the expansion engine: body expressions, iterables,
//! iteration specifications, and the values the generated iteration produces,
//! together with their mathematical models.

use vstd::prelude::*;

verus! {

/// A body expression. It may reference binders introduced by enclosing
/// iteration specifications; arithmetic is over `i64` and is checked.
pub enum Expr {
    /// An integer literal.
    Lit(i64),
    /// A reference to a binder, by its numeric name.
    Var(u32),
    /// Checked addition of the two operands.
    Add(Box<Expr>, Box<Expr>),
    /// Checked subtraction of the two operands.
    Sub(Box<Expr>, Box<Expr>),
    /// Checked multiplication of the two operands.
    Mul(Box<Expr>, Box<Expr>),
    /// Decimal formatting of an integer operand into a string value.
    Fmt(Box<Expr>),
}

/// A runtime value produced by evaluating a body expression or by running
/// one dimension of an expansion.
pub enum Value {
    Int(i64),
    Str(Vec<char>),
    List(Vec<Value>),
}

/// The mathematical model of a [`Value`]: integers are unbounded, strings are
/// character sequences, and lists are sequences of models.
pub enum Val {
    Int(int),
    Str(Seq<char>),
    List(Seq<Val>),
}

/// Model of a value.
pub open spec fn val_of(v: Value) -> Val
    decreases v,
{
    match v {
        Value::Int(i) => Val::Int(i as int),
        Value::Str(s) => Val::Str(s@),
        Value::List(l) => Val::List(vals_of(l@)),
    }
}

/// Pointwise model of a sequence of values.
pub open spec fn vals_of(s: Seq<Value>) -> Seq<Val>
    decreases s,
{
    if s.len() == 0 {
        Seq::empty()
    } else {
        seq![val_of(s[0])] + vals_of(s.drop_first())
    }
}

impl View for Value {
    type V = Val;

    open spec fn view(&self) -> Val {
        val_of(*self)
    }
}

/// One dimension's source of elements. Range endpoints are expressions, so an
/// inner iterable may reference an outer binder.
pub enum Iterable {
    /// A half-open range: the elements from the first endpoint up to, and
    /// excluding, the second.
    RangeExcl(Box<Expr>, Box<Expr>),
    /// An inclusive range: the elements from the first endpoint up to, and
    /// including, the second.
    RangeIncl(Box<Expr>, Box<Expr>),
    /// An explicit sequence of element expressions, iterated in order.
    Items(Vec<Expr>),
}

/// One iteration specification: one dimension of the expansion.
pub enum IterSpec {
    /// Introduces a binder bound to each element of the iterable in turn.
    Named(u32, Iterable),
    /// Iterates as many times as the iterable has elements, binding nothing.
    Discarded(Iterable),
    /// A bare iterable: sugar for the discarded-binder form.
    Bare(Iterable),
}

impl IterSpec {
    /// The binder a specification introduces, if any. The bare form is sugar
    /// for the discarded form, so neither introduces one.
    pub open spec fn binder(self) -> Option<u32> {
        match self {
            IterSpec::Named(x, _) => Some(x),
            IterSpec::Discarded(_) => None,
            IterSpec::Bare(_) => None,
        }
    }

    /// The iterable a specification ranges over.
    pub open spec fn iterable(self) -> Iterable {
        match self {
            IterSpec::Named(_, it) => it,
            IterSpec::Discarded(it) => it,
            IterSpec::Bare(it) => it,
        }
    }
}

/// A fixed-stride numeric iteration specification for the constant-evaluable
/// array variant: the binder runs over `start, start + stride, ...` while the
/// sign of `stride` keeps the comparison with `end` satisfied.
pub struct ConstSpec {
    pub binder: u32,
    pub start: i64,
    pub end: i64,
    pub stride: i64,
}

impl ConstSpec {
    /// The full form: start, inclusive end, and stride.
    pub fn new(binder: u32, start: i64, end: i64, stride: i64) -> (r: ConstSpec)
        ensures
            r == (ConstSpec { binder, start, end, stride }),
    {
        ConstSpec { binder, start, end, stride }
    }

    /// Start and inclusive end, with the stride defaulting to 1.
    pub fn range(binder: u32, start: i64, end: i64) -> (r: ConstSpec)
        ensures
            r == (ConstSpec { binder, start, end, stride: 1i64 }),
    {
        ConstSpec { binder, start, end, stride: 1 }
    }

    /// The inclusive end alone, with start and stride defaulting to 1.
    pub fn upto(binder: u32, end: i64) -> (r: ConstSpec)
        ensures
            r == (ConstSpec { binder, start: 1i64, end, stride: 1i64 }),
    {
        ConstSpec { binder, start: 1, end, stride: 1 }
    }
}

/// Marks whether a fold combiner stands for an ordinary callable or for a
/// macro-like expansion. Both are applied the same way; the marker only
/// selects the surface form, as the entry point's grammar requires.
pub enum CombinerKind {
    Callable,
    MacroLike,
}

/// A two-argument combining operation for the fold helper: a body expression
/// over two parameter binders.
pub struct Combiner {
    pub kind: CombinerKind,
    /// Binder the left (accumulator) argument is bound to.
    pub left: u32,
    /// Binder the right (operand) argument is bound to.
    pub right: u32,
    /// The combiner's body, evaluated with exactly the two parameters bound.
    pub body: Expr,
}

/// Everything that can go wrong while running an expansion. The engine's
/// failures are shape mismatches found while lowering a specification; they
/// surface before any use of the result, never silently as a wrong value.
#[derive(Debug)]
pub enum EvalError {
    /// A body expression referenced a binder no enclosing specification binds.
    UnboundVar,
    /// An arithmetic operation left the `i64` range.
    Overflow,
    /// An operand had the wrong shape: arithmetic or formatting over a string
    /// value, or an explicit item that is not an integer.
    TypeMismatch,
    /// One dimension has more elements than a sequence can hold.
    TooLong,
    /// A fixed-stride specification whose stride is zero or disagrees with the
    /// direction from start to end, so that no well-defined non-negative
    /// length exists.
    BadStride,
}

/// Whether an expression references a binder name.
pub open spec fn expr_refs(e: Expr, x: u32) -> bool
    decreases e,
{
    match e {
        Expr::Lit(_) => false,
        Expr::Var(y) => x == y,
        Expr::Add(a, b) => expr_refs(*a, x) || expr_refs(*b, x),
        Expr::Sub(a, b) => expr_refs(*a, x) || expr_refs(*b, x),
        Expr::Mul(a, b) => expr_refs(*a, x) || expr_refs(*b, x),
        Expr::Fmt(a) => expr_refs(*a, x),
    }
}

} // verus!
