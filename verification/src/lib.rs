//! The core of a small Lisp: a reader that turns source text into values,
//! and an evaluator that reduces values in a lexically scoped environment.
//!
//! Every executable function is verified against a contract over
//! mathematical views: [`value::Datum`] for values, [`error::Failure`] for
//! errors, a sequence of [`env::Level`]s for the scopes of a program.
//!
//! - [`value`], [`text`]: the values and their printed form.
//! - [`env`]: scopes of bindings, chained from the innermost outward.
//! - [`error`], [`cast`], [`args`]: errors, the shapes that operations
//!   expect, and the binding of arguments to parameters.
//! - [`token`], [`reader`]: from characters to tokens, from tokens to
//!   values.
//! - [`primitives`], [`semantics`], [`eval`]: the built-in operators, what
//!   evaluation means, and the evaluator that does it.
//! - [`session`]: running a whole text, and the turns of a prompt.
//! - [`roundtrip`], [`embedding`], [`fuel`]: what is printed reads back,
//!   a form reads the same wherever it stands, and the limit on nesting
//!   does not change what evaluation gives.

pub mod args;
pub mod cast;
pub mod embedding;
pub mod env;
pub mod error;
pub mod eval;
pub mod fuel;
pub mod primitives;
pub mod reader;
pub mod roundtrip;
pub mod semantics;
pub mod session;
pub mod text;
pub mod token;
pub mod value;
