//! The execution core of a small Scheme.
//!
//! A form is a value on the heap ([`value`], [`heap`], [`list`]). Analysis
//! ([`analyze`]) turns a form into its meaning ([`meaning`]) once, resolving
//! every variable to a lexical address in the scopes of the environment
//! ([`environment`]). Evaluation ([`eval`]) runs a meaning in an activation,
//! step by step, and hands what stands in tail position back to its driver,
//! so that tail calls do not nest. [`laws`] states what holds of all this
//! whatever the form is, and [`message`] puts the errors in words.

pub mod analyze;
pub mod environment;
pub mod eval;
pub mod heap;
pub mod laws;
pub mod list;
pub mod meaning;
pub mod message;
pub mod value;
