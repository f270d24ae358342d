//! Constant expressions and small functions of a systems language, down to machine code.
//!
//! A text is read into an expression tree, a tree is evaluated or lowered to stack code, and a
//! function is compiled to x86-64 code. Each step says in its contract what it gives for every
//! input.
pub mod text;
pub mod integer;
pub mod token;
pub mod expression;
pub mod ir;
pub mod equivalence;
pub mod execution;
pub mod widths;
pub mod literal;
pub mod grammar;
pub mod rules;
pub mod limits;
pub mod parentheses;
pub mod arms;
pub mod operators;
pub mod parser;
pub mod function;
pub mod laws;
pub mod codegen;

pub use crate::codegen::compile::{
    compile_x86_64_constant_function, compile_x86_64_function,
    compile_x86_64_function_with_options, MachineCode,
};
pub use crate::codegen::error::{CodegenError, CodegenErrorKind};
pub use crate::codegen::frame::{CodegenOptions, X86_64Abi};
pub use crate::expression::{
    ConstantResolver, Expr, ExprId, ExprKind, ExpressionError, ExpressionErrorKind, ExpressionTree,
    IntegerLiteral, NoConstants,
};
pub use crate::integer::{
    BinaryOperator, ConstEvalError, IntegerType, ScalarType, UnaryOperator,
};
pub use crate::ir::{
    lower_expression, lower_expression_with_pointer_bits, ExecutionError, Instruction, IrError,
    IrErrorKind, IrProgram,
};
pub use crate::parser::ExpressionParser;
pub use crate::token::Span;
