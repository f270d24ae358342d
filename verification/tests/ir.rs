//! Lowering expressions and running the code.
use mrml_rustc::{
    lower_expression, lower_expression_with_pointer_bits, BinaryOperator, ConstEvalError,
    ConstantResolver, ExecutionError, ExpressionParser, Instruction, IntegerType, IrErrorKind,
    NoConstants,
};

/// A resolver that knows one call.
struct Combiner;

impl ConstantResolver for Combiner {
    fn resolve(&self, _: &str) -> Option<u128> {
        None
    }

    fn resolve_type(&self, _: &str) -> Option<IntegerType> {
        None
    }

    fn resolves_bool(&self, _: &str) -> bool {
        false
    }

    fn resolve_call(&self, name: &str, arguments: &[u128]) -> Option<u128> {
        (name == "combine" && arguments == [4, 2]).then_some(42)
    }

    fn resolve_call_type(&self, _: &str, _: usize) -> Option<IntegerType> {
        None
    }

    fn call_resolves_bool(&self, _: &str, _: usize) -> bool {
        false
    }
}

fn execute(source: &str) -> Result<u128, ExecutionError> {
    let tree = ExpressionParser::<64>::new(source).parse().unwrap();
    let program = lower_expression::<96, 64>(&tree).unwrap();
    program.execute::<_, 32>(&NoConstants)
}

#[test]
fn lowered_ir_matches_ast_evaluation() {
    for source in [
        "2 + 3 * 4",
        "(2 + 3) * 4",
        "8 >> 2 + 1",
        "7 & 3 == 3",
        "1 < 2 && 3 < 4",
        "0 || 9",
    ] {
        let tree = ExpressionParser::<64>::new(source).parse().unwrap();
        let expected = tree.evaluate(&NoConstants).unwrap();
        let program = lower_expression::<96, 64>(&tree).unwrap();
        assert_eq!(program.execute::<_, 32>(&NoConstants), Ok(expected));
    }
}

#[test]
fn branches_preserve_short_circuit_behavior() {
    assert_eq!(execute("0 && UNKNOWN"), Ok(0));
    assert_eq!(execute("1 || UNKNOWN"), Ok(1));
    assert_eq!(
        execute("1 && UNKNOWN"),
        Err(ExecutionError::UnknownConstant)
    );
    assert_eq!(execute("false && UNKNOWN"), Ok(0));
    assert_eq!(execute("true || UNKNOWN"), Ok(1));
}

#[test]
fn boolean_bitwise_ops_evaluate_both_operands() {
    assert_eq!(
        execute("false & UNKNOWN"),
        Err(ExecutionError::UnknownConstant)
    );
    assert_eq!(
        execute("true | UNKNOWN"),
        Err(ExecutionError::UnknownConstant)
    );
    assert_eq!(
        execute("false ^ UNKNOWN"),
        Err(ExecutionError::UnknownConstant)
    );
}

#[test]
fn branches_preserve_lazy_if_expression_behavior() {
    assert_eq!(execute("if true { 42 } else { UNKNOWN }"), Ok(42));
    assert_eq!(execute("if false { UNKNOWN } else { 7 }"), Ok(7));
    assert_eq!(execute("if 3 > 2 { 8 } else { 9 }"), Ok(8));
}

#[test]
fn array_indexes_evaluate_selected_arm_elements_in_source_order() {
    assert_eq!(
        execute("[1 / 0, 42][1]"),
        Err(ExecutionError::Arithmetic(ConstEvalError::DivisionByZero))
    );
    assert_eq!(
        execute("(if true { [13, 42] } else { [1 / 0, 0] })[1]"),
        Ok(42)
    );
}

#[test]
fn sequence_instruction_discards_only_completed_statement_values() {
    assert_eq!(execute("const { 20 + 22; 7 }"), Ok(7));
    assert_eq!(
        execute("const { 1 / 0; 7 }"),
        Err(ExecutionError::Arithmetic(ConstEvalError::DivisionByZero))
    );
    let tree = ExpressionParser::<16>::new("const { 1; 2 }")
        .parse()
        .unwrap();
    let program = lower_expression::<16, 16>(&tree).unwrap();
    assert!(
        program
            .instructions()
            .iter()
            .any(|instruction| matches!(instruction, Some(Instruction::Pop)))
    );
}

#[test]
fn constant_call_instruction_preserves_argument_order() {
    let tree = ExpressionParser::<16>::new("const { combine(4, 2) }")
        .parse()
        .unwrap();
    let program = lower_expression::<16, 16>(&tree).unwrap();
    assert_eq!(program.execute::<_, 8>(&Combiner), Ok(42));
    assert!(matches!(
        program.instructions()[2],
        Some(Instruction::CallConstant("combine", 2))
    ));
}

#[test]
fn cast_instruction_uses_explicit_target_pointer_width() {
    let tree = ExpressionParser::<8>::new("0xffff_ffff_ffff_ffffu64 as usize")
        .parse()
        .unwrap();
    let program = lower_expression_with_pointer_bits::<8, 8>(&tree, 32).unwrap();
    assert_eq!(
        program.execute::<_, 4>(&NoConstants),
        Ok(u128::from(u32::MAX))
    );
    assert!(matches!(
        program.instructions()[1],
        Some(Instruction::Cast(IntegerType::Usize, 32))
    ));
}

#[test]
fn lowering_enforces_instruction_capacity() {
    let tree = ExpressionParser::<16>::new("1 + 2 * 3").parse().unwrap();
    let error = lower_expression::<4, 16>(&tree).unwrap_err();
    assert_eq!(error.kind, IrErrorKind::TooManyInstructions);
}

#[test]
fn execution_enforces_stack_capacity_and_arithmetic_checks() {
    let tree = ExpressionParser::<16>::new("1 + 2").parse().unwrap();
    let program = lower_expression::<8, 16>(&tree).unwrap();
    assert_eq!(
        program.execute::<_, 1>(&NoConstants),
        Err(ExecutionError::StackOverflow)
    );
    assert_eq!(
        execute("1 / 0"),
        Err(ExecutionError::Arithmetic(ConstEvalError::DivisionByZero))
    );
}

#[test]
fn exposes_auditable_instruction_stream() {
    let tree = ExpressionParser::<8>::new("VALUE + 1").parse().unwrap();
    let program = lower_expression::<8, 8>(&tree).unwrap();
    assert_eq!(
        program.instructions(),
        &[
            Some(Instruction::LoadConstant("VALUE")),
            Some(Instruction::PushInteger(1)),
            Some(Instruction::Binary(BinaryOperator::Add)),
        ]
    );
}
