//! A Table-style nested-iteration engine: a body expression together with an
//! ordered list of iteration specifications expands into a nested sequence of
//! values, with a fixed-stride constant variant and a left-fold helper.
//!
//! The canonical grammar is the abstract syntax in [`ast`]: a specification
//! either names a binder over an iterable, discards the binder, or is a bare
//! iterable (sugar for the discarded form). The first specification in the
//! list is always the outermost dimension, the last the innermost one, and a
//! binder is visible to the body and to every specification nested inside
//! its own.

pub mod ast;
pub mod constant;
pub mod eval;
pub mod expand;
pub mod fib;
pub mod folding;

pub use ast::{Combiner, CombinerKind, ConstSpec, EvalError, Expr, IterSpec, Iterable, Value};
pub use constant::expand_const;
pub use expand::expand;
pub use fib::{empty_instruction, fibonacci, fibonacci_cache};
pub use folding::fold;
