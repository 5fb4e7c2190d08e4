//! A tree-walking evaluator for a small expression language, verified with Verus.
//!
//! Programs arrive as an already-built syntax tree ([`ast::Term`]). Evaluation
//! ([`eval::eval`]) is proved to agree with the semantics written as spec
//! functions in [`eval`].
pub mod ast;
pub mod value;
pub mod render;
pub mod eval;
pub mod laws;
