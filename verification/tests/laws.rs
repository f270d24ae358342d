//! What trees and programs promise, on some values; and what is refused.
use mrml_rustc::{
    lower_expression, lower_expression_with_pointer_bits, BinaryOperator, ConstEvalError, Expr, ExprId, ExprKind, ExecutionError,
    ExpressionErrorKind, ExpressionParser, ExpressionTree, Instruction, IntegerType, IrErrorKind,
    IrProgram, NoConstants, Span, UnaryOperator,
};

fn evaluate(source: &str) -> Result<u128, ConstEvalError> {
    ExpressionParser::<64>::new(source).parse().unwrap().evaluate(&NoConstants)
}

fn refusal(source: &str) -> ExpressionErrorKind {
    ExpressionParser::<64>::new(source).parse().unwrap_err().kind
}

fn program(instructions: &[Instruction<'static>]) -> IrProgram<'static, 8> {
    IrProgram { instructions: instructions.iter().map(|instruction| Some(*instruction)).collect() }
}

/// A tree of one node that is its own operand.
fn endless() -> ExpressionTree<'static, 1> {
    ExpressionTree {
        nodes: vec![Some(Expr {
            kind: ExprKind::Return { operand: ExprId(0) },
            span: Span { start: 0, end: 1 },
        })],
        range_validations: Vec::new(),
        root: ExprId(0),
    }
}

#[test]
fn programs_compute_what_their_trees_stand_for() {
    for source in [
        "if 1 < 2 { 40 + 2 } else { 1 / 0 }",
        "[3, 4, 5][1] * 2",
        "const { let mut x = 1; x += 4; x << 2 }",
        "match 7 { 0..=5 => 1, 6 | 7 => 2, _ => 3 }",
        "loop { if false { break 1; } break 9; }",
        "300 as u8 as i8",
        "5 / 0",
        "NAME + 1",
    ] {
        let tree = ExpressionParser::<64>::new(source).parse().unwrap();
        let run = lower_expression::<64, 64>(&tree).unwrap().execute::<_, 32>(&NoConstants);
        match tree.evaluate(&NoConstants) {
            Ok(value) => assert_eq!(run, Ok(value), "{source}"),
            Err(ConstEvalError::UnknownIdentifier) => {
                assert_eq!(run, Err(ExecutionError::UnknownConstant), "{source}")
            }
            Err(error) => assert_eq!(run, Err(ExecutionError::Arithmetic(error)), "{source}"),
        }
    }
}

#[test]
fn evaluation_and_execution_part_on_a_truth_value_that_is_none() {
    let tree = ExpressionParser::<16>::new("const { let x: bool = 5; x }").parse().unwrap();
    assert_eq!(tree.evaluate(&NoConstants), Err(ConstEvalError::InvalidCast));
    let run = lower_expression::<16, 16>(&tree).unwrap().execute::<_, 8>(&NoConstants);
    assert_eq!(run, Ok(1));
}

#[test]
fn branches_that_are_not_taken_do_not_matter() {
    let source = "if true { 42 } else { const { let x: bool = 5; if x { 1 } else { 2 } } }";
    let tree = ExpressionParser::<32>::new(source).parse().unwrap();
    assert_eq!(tree.evaluate(&NoConstants), Ok(42));
    let run = lower_expression::<32, 32>(&tree).unwrap().execute::<_, 32>(&NoConstants);
    assert_eq!(run, Ok(42));
}

#[test]
fn a_stack_as_long_as_the_program_is_enough() {
    let tree = ExpressionParser::<64>::new("1 + (2 + (3 + (4 + 5)))").parse().unwrap();
    let program = lower_expression::<9, 64>(&tree).unwrap();
    assert_eq!(program.len(), 9);
    assert_eq!(program.execute::<_, 9>(&NoConstants), Ok(15));
    assert_eq!(program.execute::<_, 5>(&NoConstants), Ok(15));
    assert_eq!(program.execute::<_, 4>(&NoConstants), Err(ExecutionError::StackOverflow));
}

#[test]
fn a_larger_stack_keeps_the_result() {
    for source in ["1 / 0", "NAME", "2 * 3 + 4", "f(1, 2)"] {
        let tree = ExpressionParser::<32>::new(source).parse().unwrap();
        let program = lower_expression::<32, 32>(&tree).unwrap();
        assert_eq!(
            program.execute::<_, 3>(&NoConstants),
            program.execute::<_, 30>(&NoConstants),
            "{source}"
        );
    }
}

#[test]
fn the_width_of_pointers_changes_widths_only() {
    let tree = ExpressionParser::<32>::new("if true { -5i8 as usize } else { 1 + 2 }")
        .parse()
        .unwrap();
    let wide = lower_expression::<32, 32>(&tree).unwrap();
    let narrow = lower_expression_with_pointer_bits::<32, 32>(&tree, 16).unwrap();
    assert_eq!(wide.len(), narrow.len());
    let mut changed = 0;
    for (first, second) in wide.instructions().iter().zip(narrow.instructions()) {
        match (first.unwrap(), second.unwrap()) {
            (Instruction::Cast(from, 64), Instruction::Cast(to, 16)) => {
                assert_eq!(from, to);
                changed += 1;
            }
            (
                Instruction::SignedLiteralNegate(from, 64),
                Instruction::SignedLiteralNegate(to, 16),
            ) => {
                assert_eq!(from, to);
                changed += 1;
            }
            (first, second) => assert_eq!(first, second),
        }
    }
    assert_eq!(changed, 2);
}

#[test]
fn the_node_limit_never_changes_the_tree() {
    let source = "f(1, 2) + [3, 4][x]";
    let tree = ExpressionParser::<64>::new(source).parse().unwrap();
    assert_eq!(tree.nodes().len(), 9);
    let exact = ExpressionParser::<9>::new(source).parse().unwrap();
    assert_eq!(exact.nodes(), tree.nodes());
    assert_eq!(exact.root(), tree.root());
    let tight = ExpressionParser::<8>::new(source).parse().unwrap_err();
    assert_eq!(tight.kind, ExpressionErrorKind::TooManyNodes);
}

#[test]
fn parentheses_add_nothing() {
    let plain = ExpressionParser::<16>::new("1 + x * 2").parse().unwrap();
    let wrapped = ExpressionParser::<16>::new("(1 + x * 2)").parse().unwrap();
    assert_eq!(plain.root(), wrapped.root());
    assert_eq!(plain.nodes().len(), wrapped.nodes().len());
    for (first, second) in plain.nodes().iter().zip(wrapped.nodes()) {
        let (first, second) = (first.unwrap(), second.unwrap());
        assert_eq!(first.kind, second.kind);
        assert_eq!(first.span.start + 1, second.span.start);
        assert_eq!(first.span.end + 1, second.span.end);
    }
}

fn in_parentheses(count: usize, text: &str) -> String {
    format!("{}{}{}", "(".repeat(count), text, ")".repeat(count))
}

#[test]
fn nothing_begins_on_the_last_level() {
    assert_eq!(evaluate(&in_parentheses(15, "7")), Ok(7));
    assert_eq!(refusal(&in_parentheses(16, "7")), ExpressionErrorKind::NestingLimitExceeded);
    assert_eq!(refusal(&in_parentheses(15, "-7")), ExpressionErrorKind::NestingLimitExceeded);
    let choice = in_parentheses(15, "if true { 1 } else { 2 }");
    assert_eq!(refusal(&choice), ExpressionErrorKind::NestingLimitExceeded);
}

#[test]
fn truth_values_are_looked_for_on_all_levels_but_the_last() {
    let tree = ExpressionParser::<4>::new("!true").parse().unwrap();
    assert!(tree.is_boolean_expression(tree.root(), 62));
    assert!(!tree.is_boolean_expression(tree.root(), 63));
    assert!(!tree.is_boolean_expression(tree.root(), 64));
    assert!(tree.is_boolean_expression(tree.root(), 65));
}

#[test]
fn blocks_go_past_the_last_level() {
    assert_eq!(evaluate(&in_parentheses(15, "const { 1 }")), Ok(1));
    assert_eq!(evaluate(&in_parentheses(15, "{ 5 }")), Ok(5));
    assert_eq!(evaluate(&in_parentheses(15, "const { let x = 3; x * x + 1 }")), Ok(10));
    assert_eq!(evaluate(&in_parentheses(15, "const { if true { {} }; 4 }")), Ok(4));
    let deeper = in_parentheses(15, &format!("const {{ {} }}", in_parentheses(40, "6")));
    assert_eq!(evaluate(&deeper), Ok(6));
}

#[test]
fn parentheses_take_four_levels() {
    for count in 0..15 {
        let inner = in_parentheses(count, "12");
        let plain = ExpressionParser::<4>::new(&inner).parse().unwrap();
        let source = in_parentheses(count + 1, "12");
        let wrapped = ExpressionParser::<4>::new(&source).parse().unwrap();
        assert_eq!(plain.nodes().len(), 1);
        assert_eq!(wrapped.nodes().len(), 1);
        let span = wrapped.expression(wrapped.root()).unwrap().span;
        assert_eq!(span, Span { start: count + 1, end: count + 3 });
    }
}

#[test]
fn a_pop_gives_back_what_was_pushed() {
    let run = |instructions: &[Instruction<'static>]| {
        program(instructions).execute::<_, 2>(&NoConstants)
    };
    let (seven, nine) = (Instruction::PushInteger(7), Instruction::PushInteger(9));
    assert_eq!(run(&[seven, nine, Instruction::Pop]), Ok(7));
    assert_eq!(run(&[seven, nine, Instruction::Pop, nine, Instruction::Pop]), Ok(7));
    assert_eq!(run(&[seven, nine, seven]), Err(ExecutionError::StackOverflow));
    assert_eq!(run(&[Instruction::Pop]), Err(ExecutionError::StackUnderflow));
}

#[test]
fn parentheses_stand_around_comments() {
    let plain = ExpressionParser::<16>::new("1 /* one */ + // two\n 2 // three\n").parse().unwrap();
    let wrapped =
        ExpressionParser::<16>::new("(1 /* one */ + // two\n 2 // three\n)").parse().unwrap();
    assert_eq!(plain.root(), wrapped.root());
    assert_eq!(plain.nodes().len(), wrapped.nodes().len());
    assert!(ExpressionParser::<16>::new("1 // one").parse().is_ok());
    assert!(ExpressionParser::<16>::new("(1 // one)").parse().is_err());
    assert!(ExpressionParser::<16>::new("return 1").parse().is_ok());
    assert!(ExpressionParser::<16>::new("(return 1)").parse().is_err());
}

#[test]
fn a_match_takes_its_first_matching_arm() {
    assert_eq!(evaluate("match 5 { 1 | 5 => 10, 5 => 20, _ => 30 }"), Ok(10));
    assert_eq!(evaluate("match 5 { 5 if false => 10, 5 => 20, _ => 30 }"), Ok(20));
    assert_eq!(evaluate("match 5 { 0..5 => 10, 6.. => 20, n => n * 7 }"), Ok(35));
    assert_eq!(evaluate("match 5 { n if n > 4 => n, _ => 1 / 0 }"), Ok(5));
}

#[test]
fn spans_count_bytes() {
    let error = ExpressionParser::<8>::new("'\u{3b1}' +").parse().unwrap_err();
    assert_eq!(error.kind, ExpressionErrorKind::ExpectedExpression);
    assert_eq!(error.span, Span { start: 6, end: 6 });
    let tree = ExpressionParser::<8>::new("'\u{3b1}' == 'b'").parse().unwrap();
    assert_eq!(tree.expression(tree.root()).unwrap().span, Span { start: 0, end: 11 });
    let error = ExpressionParser::<8>::new("'\u{10348}' $").parse().unwrap_err();
    assert_eq!(error.span, Span { start: 7, end: 8 });
}

#[test]
fn parsed_trees_have_no_dangling_ids() {
    for source in ["f(1, x)[2]", "[1, 2, 3][0]", "match a { 1..=2 => b, c => c + 1 }"] {
        let tree = ExpressionParser::<64>::new(source).parse().unwrap();
        assert!(tree.nodes().len() <= 64);
        assert!(tree.expression(tree.root()).is_some());
        for node in tree.nodes() {
            let known = |id: ExprId| id.index() < tree.nodes().len();
            match node.unwrap().kind {
                ExprKind::Binary { left, right, .. } => assert!(known(left) && known(right)),
                ExprKind::Index { base, index } => assert!(known(base) && known(index)),
                ExprKind::Call { arguments, argument_count, .. } => {
                    assert!(arguments[..argument_count].iter().all(|id| id.is_some_and(known)))
                }
                ExprKind::If { condition, then_branch, else_branch } => {
                    assert!(known(condition) && known(then_branch) && known(else_branch))
                }
                _ => {}
            }
        }
        for range in tree.range_validations() {
            assert!(tree.expression(range.scrutinee).is_some());
        }
        let error = lower_expression::<2, 64>(&tree).unwrap_err();
        assert_ne!(error.kind, IrErrorKind::MissingExpression);
    }
}

#[test]
fn trees_keep_their_limit() {
    let tree = ExpressionParser::<3>::new("1 + 2").parse().unwrap();
    assert_eq!(tree.nodes().len(), 3);
    let error = ExpressionParser::<2>::new("1 + 2").parse().unwrap_err();
    assert_eq!(error.kind, ExpressionErrorKind::TooManyNodes);
}

#[test]
fn truth_values_are_zero_or_one() {
    for source in ["true", "!false", "5 && 7", "0 || 9", "3 < 4", "if 1 == 1 { true } else { 2 > 1 }"] {
        let tree = ExpressionParser::<32>::new(source).parse().unwrap();
        assert!(tree.is_boolean_expression(tree.root(), 0));
        assert_eq!(tree.evaluate(&NoConstants), Ok(1), "{source}");
    }
}

#[test]
fn what_is_not_chosen_is_not_evaluated() {
    assert_eq!(evaluate("false && 1 / 0 == 0"), Ok(0));
    assert_eq!(evaluate("true || 1 / 0 == 0"), Ok(1));
    assert_eq!(evaluate("if 2 > 1 { 4 } else { 1 / 0 }"), Ok(4));
    assert_eq!(evaluate("loop { if true { break 8; } break 1 / 0; }"), Ok(8));
    assert_eq!(evaluate("if 2 > 1 { 1 / 0 } else { 4 }"), Err(ConstEvalError::DivisionByZero));
}

#[test]
fn casts_are_idempotent_and_ascriptions_keep_values() {
    for ty in ["u8", "i8", "u16", "i16", "u32", "i32", "u64", "i64", "usize", "isize"] {
        let once = evaluate(&format!("0x1_2345_6789_abcd_ef81 as {ty}"));
        let twice = evaluate(&format!("0x1_2345_6789_abcd_ef81 as {ty} as {ty}"));
        assert_eq!(once, twice);
        let named = IntegerType::from_name(ty).unwrap();
        assert_eq!(named.name(), ty);
    }
    assert_eq!(evaluate("const { let x: u8 = 255; x }"), Ok(255));
    assert_eq!(evaluate("const { let x: u8 = 256; x }"), Err(ConstEvalError::Overflow));
}

#[test]
fn negated_literals_fit_their_types() {
    assert_eq!(evaluate("-128i8"), Ok(u128::MAX - 127));
    assert_eq!(evaluate("-129i8"), Err(ConstEvalError::Overflow));
    assert_eq!(evaluate("-0"), Ok(0));
    assert_eq!(evaluate("-1"), Err(ConstEvalError::Overflow));
}

#[test]
fn branches_may_leave_out_their_last_semicolon() {
    assert_eq!(evaluate("loop { if true { break 1 } else { break 2 } }"), Ok(1));
    assert_eq!(refusal("loop { if true { break 1 2 } else { break 2 } }"), ExpressionErrorKind::TrailingToken);
    assert_eq!(refusal("loop { if true { break } else { break; } }"), ExpressionErrorKind::ExpectedExpression);
}

#[test]
fn refused_texts() {
    assert!(matches!(refusal("1 $ 2"), ExpressionErrorKind::Lexical(_)));
    assert!(matches!(refusal("/* never closed"), ExpressionErrorKind::Lexical(_)));
    assert_eq!(refusal("[1 2]"), ExpressionErrorKind::ExpectedCloseBracket);
    assert_eq!(refusal("match 1 { 1 2, _ => 3 }"), ExpressionErrorKind::ExpectedFatArrow);
    assert_eq!(refusal("match 1 { 1 => 2 _ => 3 }"), ExpressionErrorKind::ExpectedComma);
    assert_eq!(refusal("[1; x]"), ExpressionErrorKind::InvalidArrayLength);
    assert_eq!(refusal("x.foo()"), ExpressionErrorKind::UnsupportedMethod);
    assert_eq!(
        refusal("340282366920938463463374607431768211456"),
        ExpressionErrorKind::IntegerOverflow
    );
    assert_eq!(refusal("f(1, 2, 3, 4, 5)"), ExpressionErrorKind::TooManyCallArguments);
    assert_eq!(refusal("[1; 17]"), ExpressionErrorKind::TooManyArrayElements);
    assert_eq!(
        refusal("const { let mut x = 0; x += 1; x += 1; x += 1; x += 1; x += 1; x += 1; x += 1; x += 1; x += 1; x }"),
        ExpressionErrorKind::TooManyInlineConstAssignments
    );
}

#[test]
fn refused_evaluations() {
    assert_eq!(evaluate("[1, 2]"), Err(ConstEvalError::InvalidExpressionTree));
    assert_eq!(evaluate("f(1)"), Err(ConstEvalError::UnsupportedCall));
    assert_eq!(evaluate("[3, 4][9]"), Err(ConstEvalError::ArrayIndexOutOfBounds));
    assert_eq!(
        evaluate("match 1 { 'a'..=5 => 1, _ => 2 }"),
        Err(ConstEvalError::InvalidRangeType)
    );
    assert_eq!(endless().evaluate(&NoConstants), Err(ConstEvalError::NestingLimitExceeded));
}

#[test]
fn refused_lowerings() {
    let kind = |source: &str| {
        let tree = ExpressionParser::<64>::new(source).parse().unwrap();
        lower_expression::<64, 64>(&tree).unwrap_err().kind
    };
    assert_eq!(kind("[1, 2]"), IrErrorKind::InvalidExpressionTree);
    assert_eq!(kind("[3, 4][x]"), IrErrorKind::InvalidExpressionTree);
    assert_eq!(
        lower_expression::<8, 1>(&endless()).unwrap_err().kind,
        IrErrorKind::NestingLimitExceeded
    );
    let mut dangling = endless();
    dangling.root = ExprId(7);
    assert_eq!(
        lower_expression::<8, 1>(&dangling).unwrap_err().kind,
        IrErrorKind::MissingExpression
    );
}

#[test]
fn refused_executions() {
    let run = |instructions: &[Instruction<'static>]| {
        program(instructions).execute::<_, 4>(&NoConstants)
    };
    assert_eq!(
        run(&[Instruction::PushInteger(1), Instruction::Binary(BinaryOperator::Add)]),
        Err(ExecutionError::StackUnderflow)
    );
    assert_eq!(run(&[Instruction::Jump(9)]), Err(ExecutionError::InvalidBranch));
    assert_eq!(run(&[]), Err(ExecutionError::InvalidFinalStack));
    assert_eq!(
        run(&[Instruction::PushInteger(1), Instruction::PushInteger(2)]),
        Err(ExecutionError::InvalidFinalStack)
    );
    assert_eq!(run(&[Instruction::LoadConstant("X")]), Err(ExecutionError::UnknownConstant));
    assert_eq!(
        run(&[Instruction::PushInteger(0), Instruction::Unary(UnaryOperator::Not)]),
        Ok(u128::MAX)
    );
    assert_eq!(
        run(&[
            Instruction::PushInteger(0),
            Instruction::JumpIfFalse(4),
            Instruction::PushInteger(1),
            Instruction::Jump(5),
            Instruction::PushInteger(2),
        ]),
        Ok(2)
    );
}
