//! The parser of expressions.
pub mod state;
pub mod substitution;
pub mod patterns;
pub mod decisions;
pub mod operators;
pub mod atoms;
pub mod consts;
pub mod blocks;
pub mod matching;
pub mod loops;
pub mod root;

pub use crate::parser::root::ExpressionParser;
