//! Compiling functions that are read from their text.
use mrml_rustc::function::{
    Assignment, AssignmentIndex, AssignmentOperator, BodyStatement, ConditionalAssignment,
    ConditionalAssignmentAction, ConditionalAssignmentBranch, ConditionalLoopAction,
    ConditionalLoopBlock, ConditionalLoopControl, ConditionalLoopElseArm, ConditionalLoopTerminal,
    ConditionalReturn, ConditionalReturnElse, ExpressionStatement, Function, FunctionAbi,
    FunctionBody, LocalBinding, LoopOperation, LoopReturn, NestedLoopBlock,
    NestedLoopControlTarget, NestedLoopPlace, NestedLoopUnconditionalControl, Parameter,
    ParseError, ParseErrorKind, PlacedConditionalControl, PlacedConditionalReturn, PlacedUnconditionalControl, TypeRef,
    WhileLoop,
};
use mrml_rustc::{
    compile_x86_64_constant_function, compile_x86_64_function,
    compile_x86_64_function_with_options, CodegenError, CodegenErrorKind, CodegenOptions, ConstEvalError,
    ConstantResolver, ExecutionError, ExpressionErrorKind, IntegerType, IrErrorKind,
    NoConstants, Span,
    X86_64Abi,
};

const X86_64_RETURN_CONSTANT_BYTES: usize = 11;

/// A resolver that knows some names with their types.
struct Constants(&'static [(&'static str, u128, IntegerType)]);

impl ConstantResolver for Constants {
    fn resolve(&self, name: &str) -> Option<u128> {
        self.0.iter().find(|entry| entry.0 == name).map(|entry| entry.1)
    }

    fn resolve_type(&self, name: &str) -> Option<IntegerType> {
        self.0.iter().find(|entry| entry.0 == name).map(|entry| entry.2)
    }

    fn resolves_bool(&self, _: &str) -> bool {
        false
    }

    fn resolve_call(&self, _: &str, _: &[u128]) -> Option<u128> {
        None
    }

    fn resolve_call_type(&self, _: &str, _: usize) -> Option<IntegerType> {
        None
    }

    fn call_resolves_bool(&self, _: &str, _: usize) -> bool {
        false
    }
}

/// A part of a text, without the white space around it.
#[derive(Clone, Copy)]
struct Part<'s> {
    whole: &'s str,
    start: usize,
    end: usize,
}

/// A statement by its shape.
enum Piece<'s> {
    If(Vec<(Option<Part<'s>>, Part<'s>)>),
    Loop(Option<&'s str>, Option<Part<'s>>, Part<'s>),
    Simple(Part<'s>),
    Tail(Part<'s>),
}

/// A statement that ends in a semicolon.
enum Simple<'s> {
    Local(LocalBinding<'s>),
    Assignment(Assignment<'s>),
    Expression(ExpressionStatement<'s>),
    Break(Option<&'s str>),
    Continue(Option<&'s str>),
    Return(LoopReturn<'s>),
}

fn is_word(character: char) -> bool {
    character.is_ascii_alphanumeric() || character == '_'
}

impl<'s> Part<'s> {
    fn of(whole: &'s str) -> Part<'s> {
        Part { whole, start: 0, end: whole.len() }.trimmed()
    }

    fn text(self) -> &'s str {
        &self.whole[self.start..self.end]
    }

    fn span(self) -> Span {
        Span { start: self.start, end: self.end }
    }

    fn between(self, start: usize, end: usize) -> Part<'s> {
        Part { whole: self.whole, start: self.start + start, end: self.start + end }.trimmed()
    }

    fn from(self, start: usize) -> Part<'s> {
        self.between(start, self.end - self.start)
    }

    fn trimmed(self) -> Part<'s> {
        let text = self.text();
        let start = self.start + (text.len() - text.trim_start().len());
        let end = if start > self.end { start } else { start + text.trim().len() };
        Part { whole: self.whole, start, end }
    }

    /// The first place outside brackets at which one of the characters stands.
    fn find(self, wanted: &str) -> Option<usize> {
        let mut depth = 0i32;
        for (index, character) in self.text().char_indices() {
            if depth == 0 && wanted.contains(character) {
                return Some(index);
            }
            if "([{".contains(character) {
                depth += 1;
            } else if ")]}".contains(character) {
                depth -= 1;
            }
        }
        None
    }

    fn word(self) -> &'s str {
        let text = self.text();
        let end = text.find(|character| !is_word(character)).unwrap_or(text.len());
        &text[..end]
    }

    /// The block that the part begins with, and what follows it.
    fn block(self) -> (Part<'s>, Part<'s>) {
        let close = self.from(1).find("}").unwrap();
        let inner = self.from(1);
        let end = inner.start + close - self.start;
        (self.between(1, end), self.from(end + 1))
    }

    fn type_ref(self) -> TypeRef<'s> {
        TypeRef { text: self.text(), span: self.span() }
    }

    /// The statements of a block.
    fn pieces(self) -> Vec<Piece<'s>> {
        let mut pieces = Vec::new();
        let mut rest = self;
        while rest.start < rest.end {
            let mut label = None;
            let mut head = rest;
            if rest.text().starts_with('\'') {
                let colon = rest.find(":").unwrap();
                label = Some(rest.between(1, colon).text());
                head = rest.from(colon + 1);
            }
            let word = head.word();
            if word == "while" {
                let open = head.find("{").unwrap();
                let condition = head.between(5, open);
                let (block, after) = head.from(open).block();
                pieces.push(Piece::Loop(label, Some(condition), block));
                rest = after;
                continue;
            }
            if word == "loop" {
                let (block, after) = head.from(4).block();
                pieces.push(Piece::Loop(label, None, block));
                rest = after;
                continue;
            }
            if word == "if" {
                let (arms, after) = head.chain();
                let first = arms[0].1.text();
                if first.ends_with(';') || first.ends_with('}') || first.is_empty() {
                    pieces.push(Piece::If(arms));
                    rest = after;
                    continue;
                }
            }
            match rest.find(";") {
                Some(end) => {
                    pieces.push(Piece::Simple(rest.between(0, end)));
                    rest = rest.from(end + 1);
                }
                None => {
                    pieces.push(Piece::Tail(rest));
                    rest = rest.from(rest.end - rest.start);
                }
            }
        }
        pieces
    }

    /// The conditions and blocks of an `if` with its `else`s.
    fn chain(self) -> (Vec<(Option<Part<'s>>, Part<'s>)>, Part<'s>) {
        let mut arms = Vec::new();
        let mut rest = self;
        loop {
            if rest.word() == "if" {
                let open = rest.find("{").unwrap();
                let condition = rest.between(2, open);
                let (block, after) = rest.from(open).block();
                arms.push((Some(condition), block));
                rest = after;
                if rest.word() != "else" {
                    return (arms, rest);
                }
                rest = rest.from(4);
            } else {
                let (block, after) = rest.block();
                arms.push((None, block));
                return (arms, after);
            }
        }
    }

    fn control(self) -> ConditionalLoopControl<'s> {
        ConditionalLoopControl { condition: self.text(), condition_span: self.span() }
    }

    fn simple(self) -> Simple<'s> {
        let word = self.word();
        let rest = self.from(word.len());
        if word == "let" {
            return Simple::Local(rest.local());
        }
        if word == "return" {
            let value = if rest.text().is_empty() { "()" } else { rest.text() };
            return Simple::Return(LoopReturn { value, value_span: rest.span() });
        }
        let label = rest.text().strip_prefix('\'');
        if word == "break" && (rest.text().is_empty() || label.is_some()) {
            return Simple::Break(label);
        }
        if word == "continue" {
            return Simple::Continue(label);
        }
        match self.assignment() {
            Some(assignment) => Simple::Assignment(assignment),
            None => Simple::Expression(ExpressionStatement {
                expression: self.text(),
                span: self.span(),
            }),
        }
    }

    fn local(self) -> LocalBinding<'s> {
        let mutable = self.word() == "mut";
        let named = if mutable { self.from(3) } else { self };
        let name = named.word();
        let rest = named.from(name.len());
        let equals = rest.find("=").unwrap();
        let ty = if rest.text().starts_with(':') {
            Some(rest.between(1, equals).type_ref())
        } else {
            None
        };
        let initializer = rest.from(equals + 1);
        LocalBinding {
            name,
            name_span: named.between(0, name.len()).span(),
            ty,
            mutable,
            initializer: initializer.text(),
            initializer_span: initializer.span(),
        }
    }

    fn assignment(self) -> Option<Assignment<'s>> {
        let dereference = self.text().starts_with('*');
        let named = if dereference { self.from(1) } else { self };
        let name = named.word();
        if name.is_empty() {
            return None;
        }
        let mut rest = named.from(name.len());
        let mut index = None;
        if rest.text().starts_with("[") {
            let inner = rest.from(1);
            let close = inner.find("]")?;
            let part = inner.between(0, close);
            index = Some(AssignmentIndex { index: part.text(), span: part.span() });
            rest = inner.from(close + 1);
        }
        let operators = [
            ("+=", AssignmentOperator::Add),
            ("-=", AssignmentOperator::Subtract),
            ("*=", AssignmentOperator::Multiply),
            ("/=", AssignmentOperator::Divide),
            ("%=", AssignmentOperator::Remainder),
            ("&=", AssignmentOperator::BitAnd),
            ("|=", AssignmentOperator::BitOr),
            ("^=", AssignmentOperator::BitXor),
            ("<<=", AssignmentOperator::ShiftLeft),
            (">>=", AssignmentOperator::ShiftRight),
            ("=", AssignmentOperator::Assign),
        ];
        if rest.text().starts_with("==") {
            return None;
        }
        let (sign, operator) = operators.into_iter().find(|entry| rest.text().starts_with(entry.0))?;
        let value = rest.from(sign.len());
        Some(Assignment {
            name,
            name_span: named.between(0, name.len()).span(),
            operator,
            value: value.text(),
            value_span: value.span(),
            index,
            dereference,
        })
    }

    /// The single statement of a block.
    fn only(self) -> Option<Simple<'s>> {
        match self.pieces().as_slice() {
            [Piece::Simple(part)] => Some(part.simple()),
            _ => None,
        }
    }

    /// The statements of a block in a loop, and how it ends.
    fn loop_block(
        self,
    ) -> (Vec<ConditionalLoopAction<'s>>, Option<ConditionalLoopTerminal<'s>>) {
        let mut actions = Vec::new();
        let mut terminal = None;
        for piece in self.pieces() {
            let Piece::Simple(part) = piece else {
                panic!("expected statement")
            };
            match part.simple() {
                Simple::Local(local) => actions.push(ConditionalLoopAction::Local(local)),
                Simple::Assignment(assignment) => {
                    actions.push(ConditionalLoopAction::Assignment(assignment))
                }
                Simple::Expression(statement) => {
                    actions.push(ConditionalLoopAction::Expression(statement))
                }
                Simple::Break(_) => terminal = Some(ConditionalLoopTerminal::Break),
                Simple::Continue(_) => terminal = Some(ConditionalLoopTerminal::Continue),
                Simple::Return(value) => terminal = Some(ConditionalLoopTerminal::Return(value)),
            }
        }
        (actions, terminal)
    }

    /// The operations of a loop with a label.
    fn operations(self, label: Option<&str>) -> Vec<LoopOperation<'s>> {
        let mut operations = Vec::new();
        for piece in self.pieces() {
            operations.push(match piece {
                Piece::Tail(_) => panic!("expected statement"),
                Piece::Simple(part) => match part.simple() {
                    Simple::Local(local) => LoopOperation::Local(local),
                    Simple::Assignment(assignment) => LoopOperation::Assignment(assignment),
                    Simple::Expression(statement) => LoopOperation::Expression(statement),
                    Simple::Break(_) => LoopOperation::Break,
                    Simple::Continue(_) => LoopOperation::Continue,
                    Simple::Return(value) => LoopOperation::Return(value),
                },
                Piece::Loop(_, condition, block) => {
                    if condition.is_none() && block.text() == "break;" {
                        LoopOperation::NestedUnitLoop
                    } else {
                        LoopOperation::NestedBlock(nested_block(label, condition, block))
                    }
                }
                Piece::If(arms) => conditional_operation(&arms),
            });
        }
        operations
    }
}

fn conditional_return<'s>(condition: Part<'s>, value: LoopReturn<'s>) -> ConditionalReturn<'s> {
    ConditionalReturn {
        condition: condition.text(),
        condition_span: condition.span(),
        value: value.value,
        value_span: value.value_span,
    }
}

fn conditional_operation<'s>(arms: &[(Option<Part<'s>>, Part<'s>)]) -> LoopOperation<'s> {
    let condition = arms[0].0.unwrap();
    if arms.len() == 1 {
        match arms[0].1.only() {
            Some(Simple::Break(_)) => return LoopOperation::ConditionalBreak(condition.control()),
            Some(Simple::Continue(_)) => {
                return LoopOperation::ConditionalContinue(condition.control())
            }
            Some(Simple::Return(value)) => {
                return LoopOperation::ConditionalReturn(conditional_return(condition, value))
            }
            _ => {}
        }
    }
    let (actions, terminal) = arms[0].1.loop_block();
    let mut else_arms = Vec::new();
    for arm in &arms[1..] {
        let (actions, terminal) = arm.1.loop_block();
        else_arms.push(ConditionalLoopElseArm {
            condition: arm.0.map(Part::control),
            actions,
            terminal,
        });
    }
    LoopOperation::ConditionalBlock(ConditionalLoopBlock {
        condition: condition.text(),
        condition_span: condition.span(),
        actions,
        terminal,
        else_arms,
    })
}

/// A loop in a loop that has the label `outer`.
fn nested_block<'s>(
    outer: Option<&str>,
    condition: Option<Part<'s>>,
    block: Part<'s>,
) -> NestedLoopBlock<'s> {
    let target = |label: Option<&str>| {
        if label.is_some() && label == outer {
            NestedLoopControlTarget::Outer
        } else {
            NestedLoopControlTarget::Inner
        }
    };
    let mut nested = NestedLoopBlock {
        entry_condition: condition.map(Part::control),
        actions: Vec::new(),
        unconditional_controls: Vec::new(),
        conditional_breaks: Vec::new(),
        conditional_returns: Vec::new(),
        conditional_continues: Vec::new(),
    };
    let mut control_order = 0;
    for piece in block.pieces() {
        let place = NestedLoopPlace { action_index: nested.actions.len(), control_order };
        match piece {
            Piece::Simple(part) => {
                let control = match part.simple() {
                    Simple::Local(local) => {
                        nested.actions.push(ConditionalLoopAction::Local(local));
                        continue;
                    }
                    Simple::Assignment(assignment) => {
                        nested.actions.push(ConditionalLoopAction::Assignment(assignment));
                        continue;
                    }
                    Simple::Expression(statement) => {
                        nested.actions.push(ConditionalLoopAction::Expression(statement));
                        continue;
                    }
                    Simple::Break(label) => NestedLoopUnconditionalControl::Break(target(label)),
                    Simple::Continue(label) => {
                        NestedLoopUnconditionalControl::Continue(target(label))
                    }
                    Simple::Return(value) => NestedLoopUnconditionalControl::Return(value),
                };
                nested.unconditional_controls.push(PlacedUnconditionalControl { control, place });
            }
            Piece::If(arms) if arms.len() == 1 => {
                let condition = arms[0].0.unwrap();
                let control = condition.control();
                match arms[0].1.only() {
                    Some(Simple::Break(label)) => {
                        nested.conditional_breaks.push(PlacedConditionalControl {
                            control,
                            target: target(label),
                            place,
                        })
                    }
                    Some(Simple::Continue(label)) => {
                        nested.conditional_continues.push(PlacedConditionalControl {
                            control,
                            target: target(label),
                            place,
                        })
                    }
                    Some(Simple::Return(value)) => {
                        nested.conditional_returns.push(PlacedConditionalReturn {
                            conditional: conditional_return(condition, value),
                            place,
                        })
                    }
                    _ => panic!("expected control"),
                }
            }
            _ => panic!("expected statement"),
        }
        control_order += 1;
    }
    nested
}

fn branch_actions<'s>(block: Part<'s>) -> Vec<ConditionalAssignmentAction<'s>> {
    let mut actions = Vec::new();
    for piece in block.pieces() {
        let Piece::Simple(part) = piece else {
            panic!("expected statement")
        };
        actions.push(match part.simple() {
            Simple::Local(local) => ConditionalAssignmentAction::Local(local),
            Simple::Assignment(assignment) => ConditionalAssignmentAction::Assignment(assignment),
            Simple::Expression(statement) => ConditionalAssignmentAction::Expression(statement),
            Simple::Return(value) => ConditionalAssignmentAction::Return(value),
            _ => panic!("expected statement"),
        });
    }
    actions
}

/// A chain of conditions in a body, and whether each way through it returns.
fn conditional_statement<'s>(
    arms: &[(Option<Part<'s>>, Part<'s>)],
) -> (BodyStatement<'s>, bool) {
    let mut branches = Vec::new();
    let mut else_value = None;
    for arm in arms {
        match (arm.0, arm.1.only()) {
            (Some(condition), Some(Simple::Return(value))) => {
                branches.push(conditional_return(condition, value))
            }
            (None, Some(Simple::Return(value))) => else_value = Some(value),
            _ => {}
        }
    }
    let exhaustive = else_value.is_some();
    if branches.len() == 1 && arms.len() == 1 {
        return (BodyStatement::ConditionalReturn(branches[0]), false);
    }
    if branches.len() + usize::from(exhaustive) == arms.len() {
        let statement = ConditionalReturnElse { branches, else_value };
        return (BodyStatement::ConditionalReturnElse(statement), exhaustive);
    }
    let mut branches = Vec::new();
    let mut else_actions = Vec::new();
    for arm in arms {
        match arm.0 {
            Some(condition) => branches.push(ConditionalAssignmentBranch {
                condition: condition.text(),
                condition_span: condition.span(),
                actions: branch_actions(arm.1),
            }),
            None => else_actions = branch_actions(arm.1),
        }
    }
    let statement = ConditionalAssignment { branches, else_actions };
    (BodyStatement::ConditionalAssignment(statement), false)
}

fn leaves(operation: &LoopOperation) -> bool {
    let breaks = |terminal: &Option<ConditionalLoopTerminal>| {
        matches!(terminal, Some(ConditionalLoopTerminal::Break))
    };
    match operation {
        LoopOperation::Break | LoopOperation::ConditionalBreak(_) => true,
        LoopOperation::ConditionalBlock(block) => {
            breaks(&block.terminal) || block.else_arms.iter().any(|arm| breaks(&arm.terminal))
        }
        LoopOperation::NestedBlock(block) => {
            let outer = NestedLoopControlTarget::Outer;
            block.conditional_breaks.iter().any(|control| control.target == outer)
                || block
                    .unconditional_controls
                    .iter()
                    .any(|placed| placed.control == NestedLoopUnconditionalControl::Break(outer))
        }
        _ => false,
    }
}

fn read_body<'s>(text: &'s str) -> FunctionBody<'s> {
    let whole = Part::of(text);
    let mut statements = Vec::new();
    let mut while_loops = Vec::new();
    let mut tail = None;
    let mut diverges = false;
    for piece in whole.pieces() {
        diverges = false;
        match piece {
            Piece::Tail(part) => tail = Some(part),
            Piece::Simple(part) => statements.push(match part.simple() {
                Simple::Local(local) => BodyStatement::Local(local),
                Simple::Assignment(assignment) => BodyStatement::Assignment(assignment),
                Simple::Expression(statement) => BodyStatement::Expression(statement),
                Simple::Return(value) => {
                    diverges = true;
                    BodyStatement::Return(value)
                }
                _ => panic!("expected statement"),
            }),
            Piece::Loop(label, condition, block) => {
                let operations = block.operations(label);
                diverges = condition.is_none() && !operations.iter().any(leaves);
                while_loops.push(WhileLoop { condition: condition.map(Part::control), operations });
                statements.push(BodyStatement::Loop);
            }
            Piece::If(arms) => {
                let (statement, exhaustive) = conditional_statement(&arms);
                diverges = exhaustive;
                statements.push(statement);
            }
        }
    }
    let end = Span { start: text.len(), end: text.len() };
    FunctionBody {
        statements,
        while_loops,
        tail: tail.map_or("()", Part::text),
        tail_span: tail.map_or(end, Part::span),
        tail_diverges: diverges,
    }
}

/// The function that a text ends with.
fn read_function<const MAX_PARAMETERS: usize>(source: &str) -> Function<'_, MAX_PARAMETERS> {
    let whole = Part::of(source);
    let keyword = source.find("fn ").unwrap();
    let named = whole.from(keyword + 3);
    let name = named.word();
    let list = named.from(name.len() + 1);
    let close = list.find(")").unwrap();
    let mut parameters = Vec::new();
    let mut rest = list.between(0, close);
    while rest.start < rest.end {
        let name = rest.word();
        let end = rest.find(",").unwrap_or(rest.end - rest.start);
        let colon = rest.find(":").unwrap();
        parameters.push(Parameter { name, ty: rest.between(colon + 1, end).type_ref() });
        rest = if end < rest.end - rest.start { rest.from(end + 1) } else { rest.from(end) };
    }
    let after = list.from(close + 1);
    let open = after.find("{").unwrap();
    let return_type = if after.text().starts_with("->") {
        Some(after.between(2, open).type_ref())
    } else {
        None
    };
    let (block, _) = after.from(open).block();
    Function {
        public: source[..keyword].contains("pub "),
        abi: if source[..keyword].contains("extern \"C\"") {
            FunctionAbi::C
        } else {
            FunctionAbi::Rust
        },
        no_mangle: source[..keyword].contains("no_mangle"),
        name_span: named.between(0, name.len()).span(),
        parameters,
        return_type,
        body_expression_span: block.span(),
        body: Ok(read_body(block.text())),
    }
}

#[test]
fn emits_a_windows_and_system_v_compatible_integer_return() {
    let source = "const PAGE: u64 = 4096; #[unsafe(no_mangle)] pub extern \"C\" fn arena_bytes() -> u64 { PAGE * 8 + 16 }";
    let constants = Constants(&[("PAGE", 4096, IntegerType::U64)]);
    let function = read_function::<2>(source);
    let code = compile_x86_64_constant_function::<_, 11, 2, 16>(&function, &constants).unwrap();
    assert_eq!(
        code.bytes(),
        &[
            0x48, 0xb8, 0x10, 0x80, 0x00, 0x00, 0x00, 0x00, 0x00, 0x00, 0xc3
        ]
    );
}

#[test]
fn code_can_be_cloned() {
    let function =
        read_function::<1>("#[unsafe(no_mangle)] pub extern \"C\" fn seven() -> u64 { 7 }");
    let code = compile_x86_64_constant_function::<_, 11, 1, 4>(&function, &NoConstants).unwrap();
    let copy = code.clone();
    assert_eq!(copy, code);
    assert_eq!(copy.bytes(), &[0x48, 0xb8, 7, 0, 0, 0, 0, 0, 0, 0, 0xc3]);
}

#[test]
fn emits_typed_negative_module_constants() {
    let source = "const OFFSET: i32 = -2; #[unsafe(no_mangle)] pub extern \"C\" fn value(input: i32) -> i32 { input + OFFSET }";
    let constants = Constants(&[("OFFSET", 0xffff_fffe, IntegerType::I32)]);
    let function = read_function::<2>(source);
    for abi in [X86_64Abi::Windows, X86_64Abi::SystemV] {
        let code =
            compile_x86_64_function::<_, 128, 2, 16>(&function, &constants, abi).unwrap();
        assert!(code.bytes().windows(10).any(|bytes| {
            bytes == [0x48, 0xb8, 0xfe, 0xff, 0xff, 0xff, 0xff, 0xff, 0xff, 0xff]
        }));
    }
}

#[test]
fn reports_source_relative_expression_errors() {
    let source = "#[unsafe(no_mangle)] pub extern \"C\" fn broken() -> u64 { 1 + }";
    let function = read_function::<2>(source);
    let error =
        compile_x86_64_constant_function::<_, 16, 2, 8>(&function, &NoConstants).unwrap_err();
    assert_eq!(
        error.kind,
        CodegenErrorKind::Expression(ExpressionErrorKind::ExpectedExpression)
    );
    assert_eq!(error.span.start, function.body_expression_span.end);
}

#[test]
fn rejects_unsupported_signatures_and_overflow() {
    let function = read_function::<2>("#[unsafe(no_mangle)] pub extern \"C\" fn identity(value: u64) -> u64 { value }");
    let error =
        compile_x86_64_constant_function::<_, 16, 2, 8>(&function, &NoConstants).unwrap_err();
    assert_eq!(error.kind, CodegenErrorKind::ParametersUnsupported);

    let function = read_function::<2>("#[unsafe(no_mangle)] pub extern \"C\" fn byte() -> u8 { 256 }");
    let error =
        compile_x86_64_constant_function::<_, 16, 2, 8>(&function, &NoConstants).unwrap_err();
    assert_eq!(error.kind, CodegenErrorKind::ValueOutOfRange);
}

#[test]
fn enforces_output_capacity_without_partial_artifacts() {
    let function = read_function::<2>("#[unsafe(no_mangle)] pub extern \"C\" fn answer() -> u64 { 42 }");
    let error =
        compile_x86_64_constant_function::<_, 10, 2, 8>(&function, &NoConstants).unwrap_err();
    assert_eq!(error.kind, CodegenErrorKind::OutputTooSmall);
}

#[test]
fn refuses_to_export_an_unstable_rust_abi_symbol() {
    let function = read_function::<2>("pub fn answer() -> u64 { 42 }");
    let error =
        compile_x86_64_constant_function::<_, 16, 2, 8>(&function, &NoConstants).unwrap_err();
    assert_eq!(error.kind, CodegenErrorKind::StableExportRequired);
}

#[test]
fn emits_abi_specific_parameter_returns() {
    let function = read_function::<2>("#[unsafe(no_mangle)] pub extern \"C\" fn identity(value: u64) -> u64 { value }");
    let windows =
        compile_x86_64_function::<_, 16, 2, 8>(&function, &NoConstants, X86_64Abi::Windows)
            .unwrap();
    assert_eq!(
        windows.bytes(),
        &[0x51, 0x48, 0x8b, 0x44, 0x24, 0, 0x48, 0x83, 0xc4, 8, 0xc3]
    );
    let system_v =
        compile_x86_64_function::<_, 16, 2, 8>(&function, &NoConstants, X86_64Abi::SystemV)
            .unwrap();
    assert_eq!(system_v.bytes()[0], 0x57);
    assert_eq!(&system_v.bytes()[1..], &windows.bytes()[1..]);
}

#[test]
fn saves_and_reads_stack_passed_parameters_for_both_abis() {
    let windows_function = read_function::<8>("#[unsafe(no_mangle)] pub extern \"C\" fn fifth(a: u64, b: u64, c: u64, d: u64, value: u64) -> u64 { value }");
    let windows = compile_x86_64_function::<_, 96, 8, 8>(
        &windows_function,
        &NoConstants,
        X86_64Abi::Windows,
    )
    .unwrap();
    assert!(
        windows
            .bytes()
            .windows(6)
            .any(|bytes| bytes == [0x48, 0x8b, 0x44, 0x24, 72, 0x50])
    );

    let system_v_function = read_function::<8>("#[unsafe(no_mangle)] pub extern \"C\" fn seventh(a: u64, b: u64, c: u64, d: u64, e: u64, f: u64, value: u64) -> u64 { value }");
    let system_v = compile_x86_64_function::<_, 128, 8, 8>(
        &system_v_function,
        &NoConstants,
        X86_64Abi::SystemV,
    )
    .unwrap();
    assert!(
        system_v
            .bytes()
            .windows(6)
            .any(|bytes| bytes == [0x48, 0x8b, 0x44, 0x24, 56, 0x50])
    );
}

#[test]
fn uses_wide_displacements_for_deep_array_stack_slots() {
    let source = "#[unsafe(no_mangle)] pub extern \"C\" fn deep(values: [u64; 8], after: u64) -> u64 { let copied = values; copied[7] + values[0] + after }";
    let function = read_function::<4>(source);
    for abi in [X86_64Abi::Windows, X86_64Abi::SystemV] {
        let code =
            compile_x86_64_function::<_, 2048, 4, 64>(&function, &NoConstants, abi).unwrap();
        assert!(
            code.bytes()
                .windows(4)
                .any(|bytes| bytes == [0x48, 0x8b, 0x84, 0x24])
        );
    }

    let packed_source = "#[unsafe(no_mangle)] pub extern \"C\" fn packed(values: [u8; 4], after: u8) -> u8 { values[0] + after }";
    let packed_function = read_function::<4>(packed_source);
    for abi in [X86_64Abi::Windows, X86_64Abi::SystemV] {
        assert!(
            compile_x86_64_function::<_, 512, 4, 32>(&packed_function, &NoConstants, abi,)
                .is_ok()
        );
    }
}

#[test]
fn bounds_abi_parameters_and_uses_wide_stack_cleanup() {
    let function = read_function::<17>("#[unsafe(no_mangle)] pub extern \"C\" fn last(a: u64, b: u64, c: u64, d: u64, e: u64, f: u64, g: u64, h: u64, i: u64, j: u64, k: u64, l: u64, m: u64, n: u64, o: u64, value: u64) -> u64 { value }");
    let code =
        compile_x86_64_function::<_, 256, 17, 8>(&function, &NoConstants, X86_64Abi::Windows)
            .unwrap();
    assert!(
        code.bytes()
            .windows(7)
            .any(|bytes| bytes == [0x48, 0x81, 0xc4, 128, 0, 0, 0])
    );

    let function = read_function::<17>("#[unsafe(no_mangle)] pub extern \"C\" fn excess(a: u64, b: u64, c: u64, d: u64, e: u64, f: u64, g: u64, h: u64, i: u64, j: u64, k: u64, l: u64, m: u64, n: u64, o: u64, p: u64, value: u64) -> u64 { value }");
    let error =
        compile_x86_64_function::<_, 256, 17, 8>(&function, &NoConstants, X86_64Abi::Windows)
            .unwrap_err();
    assert_eq!(error.kind, CodegenErrorKind::TooManyAbiParameters);
}

#[test]
fn emits_checked_runtime_arithmetic_and_a_shared_trap() {
    let function = read_function::<2>("#[unsafe(no_mangle)] pub extern \"C\" fn increment(value: u64) -> u64 { value + 1 }");
    let code =
        compile_x86_64_function::<_, 64, 2, 8>(&function, &NoConstants, X86_64Abi::SystemV)
            .unwrap();
    assert!(
        code.bytes()
            .windows(3)
            .any(|bytes| bytes == [0x48, 0x01, 0xc8])
    );
    assert!(code.bytes().windows(2).any(|bytes| bytes == [0x0f, 0x82]));
    assert_eq!(&code.bytes()[code.len() - 2..], &[0x0f, 0x0b]);
}

#[test]
fn emits_width_normalization_and_narrow_overflow_checks() {
    let function = read_function::<2>("#[unsafe(no_mangle)] pub extern \"C\" fn increment(value: u8) -> u8 { value + 1 }");
    let code =
        compile_x86_64_function::<_, 96, 2, 8>(&function, &NoConstants, X86_64Abi::Windows)
            .unwrap();
    assert!(
        code.bytes()
            .windows(3)
            .any(|bytes| bytes == [0x0f, 0xb6, 0xc0])
    );
    assert!(
        code.bytes()
            .windows(8)
            .any(|bytes| bytes == u64::from(u8::MAX).to_le_bytes())
    );
    assert!(code.bytes().windows(2).any(|bytes| bytes == [0x0f, 0x87]));

    let wrapping = compile_x86_64_function_with_options::<_, 96, 2, 8>(
        &function,
        &NoConstants,
        X86_64Abi::Windows,
        CodegenOptions::wrapping(),
    )
    .unwrap();
    assert!(
        !wrapping
            .bytes()
            .windows(2)
            .any(|bytes| bytes == [0x0f, 0x82])
    );
    assert!(
        !wrapping
            .bytes()
            .windows(2)
            .any(|bytes| bytes == [0x0f, 0x87])
    );
    assert_eq!(wrapping.bytes()[wrapping.len() - 1], 0xc3);
}

#[test]
fn types_unsigned_comparisons_as_bool() {
    let function = read_function::<2>("#[unsafe(no_mangle)] pub extern \"C\" fn less(left: u8, right: u8) -> bool { left < right }");
    let code =
        compile_x86_64_function::<_, 96, 2, 8>(&function, &NoConstants, X86_64Abi::Windows)
            .unwrap();
    assert!(
        code.bytes()
            .windows(3)
            .any(|bytes| bytes == [0x0f, 0x92, 0xc0])
    );

    let function = read_function::<2>("#[unsafe(no_mangle)] pub extern \"C\" fn less(left: u8, right: u8) -> u8 { left < right }");
    let error =
        compile_x86_64_function::<_, 96, 2, 8>(&function, &NoConstants, X86_64Abi::Windows)
            .unwrap_err();
    assert_eq!(error.kind, CodegenErrorKind::RuntimeTypeMismatch);
}

#[test]
fn emits_signed_division_negation_and_comparisons() {
    let function = read_function::<2>("#[unsafe(no_mangle)] pub extern \"C\" fn quotient(left: i8, right: i8) -> i8 { -left / right }");
    let code =
        compile_x86_64_function::<_, 256, 2, 16>(&function, &NoConstants, X86_64Abi::Windows)
            .unwrap();
    assert!(
        code.bytes()
            .windows(4)
            .any(|bytes| bytes == [0x48, 0x0f, 0xbe, 0xc0])
    );
    assert!(
        code.bytes()
            .windows(3)
            .any(|bytes| bytes == [0x48, 0xf7, 0xf9])
    );
    assert!(
        code.bytes()
            .windows(3)
            .any(|bytes| bytes == [0x48, 0xf7, 0xd8])
    );

    let function = read_function::<2>("#[unsafe(no_mangle)] pub extern \"C\" fn less(left: i32, right: i32) -> bool { left < right }");
    let code =
        compile_x86_64_function::<_, 128, 2, 8>(&function, &NoConstants, X86_64Abi::SystemV)
            .unwrap();
    assert!(
        code.bytes()
            .windows(3)
            .any(|bytes| bytes == [0x0f, 0x9c, 0xc0])
    );

    let function = read_function::<2>("#[unsafe(no_mangle)] pub extern \"C\" fn minimum() -> i8 { -128i8 }");
    let code =
        compile_x86_64_function::<_, 64, 2, 8>(&function, &NoConstants, X86_64Abi::Windows)
            .unwrap();
    assert_eq!(&code.bytes()[2..10], &(-128i64 as u64).to_le_bytes());
}

#[test]
fn emits_typed_boolean_not_and_short_circuit_branches() {
    let function = read_function::<2>("#[unsafe(no_mangle)] pub extern \"C\" fn logic(left: bool, right: bool) -> bool { left && !right }");
    let code =
        compile_x86_64_function::<_, 128, 2, 16>(&function, &NoConstants, X86_64Abi::Windows)
            .unwrap();
    assert!(code.bytes().windows(2).any(|bytes| bytes == [0x0f, 0x84]));
    assert!(
        code.bytes()
            .windows(3)
            .any(|bytes| bytes == [0x0f, 0x94, 0xc0])
    );

    let function = read_function::<2>("#[unsafe(no_mangle)] pub extern \"C\" fn logic(left: u8, right: u8) -> bool { left && right }");
    let error =
        compile_x86_64_function::<_, 128, 2, 16>(&function, &NoConstants, X86_64Abi::Windows)
            .unwrap_err();
    assert_eq!(error.kind, CodegenErrorKind::RuntimeTypeMismatch);

    let function = read_function::<2>("#[unsafe(no_mangle)] pub extern \"C\" fn constant_guard() -> bool { true || (1 / 0 > 0) }");
    let code =
        compile_x86_64_function::<_, 160, 2, 16>(&function, &NoConstants, X86_64Abi::SystemV)
            .unwrap();
    assert!(code.bytes().windows(2).any(|bytes| bytes == [0x0f, 0x85]));
}

#[test]
fn emits_integer_cast_normalization_for_shift_distances() {
    let function = read_function::<2>("#[unsafe(no_mangle)] pub extern \"C\" fn shifted(value: u8, distance: u8) -> u8 { value >> distance as usize }");
    let code =
        compile_x86_64_function::<_, 128, 2, 16>(&function, &NoConstants, X86_64Abi::SystemV)
            .unwrap();
    assert!(
        code.bytes()
            .windows(3)
            .any(|bytes| bytes == [0x48, 0xd3, 0xe8])
    );
}

#[test]
fn rejects_cast_results_that_do_not_match_the_return_type() {
    let function = read_function::<1>("#[unsafe(no_mangle)] pub extern \"C\" fn mismatch() -> u8 { 1 as u64 }");
    let error =
        compile_x86_64_function::<_, 64, 1, 8>(&function, &NoConstants, X86_64Abi::Windows)
            .unwrap_err();
    assert_eq!(error.kind, CodegenErrorKind::RuntimeTypeMismatch);
}

#[test]
fn folds_typed_locals_in_declaration_order() {
    let function = read_function::<2>("#[unsafe(no_mangle)] pub extern \"C\" fn local_math() -> isize { let x: isize = 15; let y: isize = 4; x / y + x % y }");
    let code =
        compile_x86_64_function::<_, 64, 2, 16>(&function, &NoConstants, X86_64Abi::Windows)
            .unwrap();
    assert_eq!(&code.bytes()[2..10], &6u64.to_le_bytes());

    let function = read_function::<2>("#[unsafe(no_mangle)] pub extern \"C\" fn duplicate() -> usize { let x: usize = 1; let x: usize = 2; x }");
    let error =
        compile_x86_64_function::<_, 64, 2, 16>(&function, &NoConstants, X86_64Abi::Windows)
            .unwrap_err();
    assert_eq!(error.kind, CodegenErrorKind::DuplicateLocal);
}

#[test]
fn emits_parameterized_integer_and_boolean_locals() {
    let function = read_function::<4>("#[unsafe(no_mangle)] pub extern \"C\" fn local_runtime(value: u64) -> u64 { let doubled: u64 = value * 2; let adjusted: u64 = doubled + 1; adjusted + value }");
    let code =
        compile_x86_64_function::<_, 256, 4, 32>(&function, &NoConstants, X86_64Abi::Windows)
            .unwrap();
    assert!(code.bytes().iter().filter(|byte| **byte == 0x50).count() >= 4);
    assert!(
        code.bytes()
            .windows(4)
            .any(|bytes| bytes == [0x48, 0x83, 0xc4, 24])
    );

    let function = read_function::<4>("#[unsafe(no_mangle)] pub extern \"C\" fn local_guard(value: u64, enabled: bool) -> bool { let positive: bool = value > 0; enabled && positive }");
    assert!(
        compile_x86_64_function::<_, 256, 4, 32>(&function, &NoConstants, X86_64Abi::SystemV,)
            .is_ok()
    );
}

#[test]
fn evaluates_and_emits_mutable_local_assignments() {
    let function = read_function::<4>("#[unsafe(no_mangle)] pub extern \"C\" fn swap() -> isize { let mut a: isize = 1; let mut b: isize = 2; a ^= b; b ^= a; a = a ^ b; a | b }");
    let code =
        compile_x86_64_function::<_, 256, 4, 32>(&function, &NoConstants, X86_64Abi::Windows)
            .unwrap();
    assert!(code.bytes().len() > X86_64_RETURN_CONSTANT_BYTES);

    let function = read_function::<4>("#[unsafe(no_mangle)] pub extern \"C\" fn mutate(value: u64) -> u64 { let mut x: u64 = value; x ^= 255; x += 1; x }");
    let code =
        compile_x86_64_function::<_, 256, 4, 32>(&function, &NoConstants, X86_64Abi::SystemV)
            .unwrap();
    assert!(
        code.bytes()
            .windows(5)
            .any(|bytes| bytes == [0x48, 0x89, 0x44, 0x24, 0])
    );

    let function = read_function::<2>("#[unsafe(no_mangle)] pub extern \"C\" fn invalid(value: u64) -> u64 { let x: u64 = value; x = 1; x }");
    assert_eq!(
        compile_x86_64_function::<_, 128, 2, 16>(&function, &NoConstants, X86_64Abi::Windows,)
            .unwrap_err()
            .kind,
        CodegenErrorKind::ImmutableAssignment
    );
}

#[test]
fn infers_local_integer_types_from_context_and_suffixes() {
    let function = read_function::<2>("#[unsafe(no_mangle)] pub extern \"C\" fn inferred() -> i32 { let mut x = 0; x += 42; x }");
    assert!(
        compile_x86_64_function::<_, 256, 2, 16>(&function, &NoConstants, X86_64Abi::Windows,)
            .is_ok()
    );

    let function = read_function::<2>("#[unsafe(no_mangle)] pub extern \"C\" fn mismatch(value: u64) -> u64 { let x = 1u32; x + value }");
    assert_eq!(
        compile_x86_64_function::<_, 256, 2, 16>(&function, &NoConstants, X86_64Abi::SystemV,)
            .unwrap_err()
            .kind,
        CodegenErrorKind::RuntimeTypeMismatch
    );
}

#[test]
fn emits_typed_lazy_if_expressions() {
    let function = read_function::<2>("#[unsafe(no_mangle)] pub extern \"C\" fn choose(value: u64, guard: bool) -> u64 { if guard { value } else { 10 / value } }");
    let code =
        compile_x86_64_function::<_, 512, 2, 32>(&function, &NoConstants, X86_64Abi::SystemV)
            .unwrap();
    assert!(code.bytes().windows(2).any(|bytes| bytes == [0x0f, 0x84]));
    assert!(code.bytes().contains(&0xe9));

    for source in [
        "#[unsafe(no_mangle)] pub extern \"C\" fn bad() -> u64 { if 1 { 2 } else { 3 } }",
        "#[unsafe(no_mangle)] pub extern \"C\" fn bad(flag: bool) -> u64 { if flag { 2 } else { false } }",
    ] {
        let function = read_function::<2>(source);
        assert_eq!(
            compile_x86_64_function::<_, 512, 2, 32>(
                &function,
                &NoConstants,
                X86_64Abi::Windows,
            )
            .unwrap_err()
            .kind,
            CodegenErrorKind::RuntimeTypeMismatch
        );
    }
}

#[test]
fn emits_explicit_tail_return_values() {
    let function = read_function::<2>("#[unsafe(no_mangle)] pub extern \"C\" fn identity(value: usize) -> usize { return value; }");
    assert!(
        compile_x86_64_function::<_, 128, 2, 16>(&function, &NoConstants, X86_64Abi::Windows,)
            .is_ok()
    );
    assert!(
        compile_x86_64_function::<_, 128, 2, 16>(&function, &NoConstants, X86_64Abi::SystemV,)
            .is_ok()
    );
}

#[test]
fn emits_conditional_returns_with_local_frame_cleanup() {
    let function = read_function::<4>("#[unsafe(no_mangle)] pub extern \"C\" fn early(value: u64, stop: bool) -> u64 { let adjusted: u64 = value + 1; if stop { return adjusted; } adjusted + 1 }");
    for abi in [X86_64Abi::Windows, X86_64Abi::SystemV] {
        let code =
            compile_x86_64_function::<_, 512, 4, 32>(&function, &NoConstants, abi).unwrap();
        assert!(code.bytes().iter().filter(|byte| **byte == 0xc3).count() >= 2);
    }

    for source in [
        "#[unsafe(no_mangle)] pub extern \"C\" fn bad(value: u64) -> u64 { if value { return 1; } value }",
        "#[unsafe(no_mangle)] pub extern \"C\" fn bad(value: u64, stop: bool) -> u64 { if stop { return false; } value }",
    ] {
        let function = read_function::<2>(source);
        assert_eq!(
            compile_x86_64_function::<_, 512, 2, 32>(
                &function,
                &NoConstants,
                X86_64Abi::Windows,
            )
            .unwrap_err()
            .kind,
            CodegenErrorKind::RuntimeTypeMismatch
        );
    }
}

#[test]
fn emits_exhaustive_conditional_returns_with_lazy_branches() {
    for source in [
        "#[unsafe(no_mangle)] pub extern \"C\" fn choose(value: u64, select: bool) -> u64 { let adjusted = value + 1; if select { return adjusted; } else { return value / value; } }",
        "#[unsafe(no_mangle)] pub extern \"C\" fn choose_chain(value: u64) -> u64 { if value == 0 { return 42; } else if value == 1 { return value + 41; } else if value == 2 { return 84 / value; } else { return 126 / value; } }",
        "#[unsafe(no_mangle)] pub extern \"C\" fn choose_unit(select: bool) { if select { return; } else { return (); } }",
    ] {
        let function = read_function::<4>(source);
        for abi in [X86_64Abi::Windows, X86_64Abi::SystemV] {
            assert!(
                compile_x86_64_function::<_, 512, 4, 32>(&function, &NoConstants, abi,).is_ok()
            );
        }
    }

    let function = read_function::<2>("#[unsafe(no_mangle)] pub extern \"C\" fn bad(select: bool) -> u64 { if select { return 1; } else { return false; } }");
    assert_eq!(
        compile_x86_64_function::<_, 512, 2, 32>(&function, &NoConstants, X86_64Abi::Windows,)
            .unwrap_err()
            .kind,
        CodegenErrorKind::RuntimeTypeMismatch
    );
}

#[test]
fn emits_non_exhaustive_return_chains_with_fallthrough() {
    let source = "#[unsafe(no_mangle)] pub extern \"C\" fn choose(value: u64) -> u64 { if value == 0 { return 42; } else if value == 1 { return 42 / value; } 84 / value }";
    let function = read_function::<2>(source);
    for abi in [X86_64Abi::Windows, X86_64Abi::SystemV] {
        assert!(compile_x86_64_function::<_, 512, 2, 32>(&function, &NoConstants, abi).is_ok());
    }
}

#[test]
fn emits_lazy_conditional_assignments() {
    let source = "#[unsafe(no_mangle)] pub extern \"C\" fn choose(value: u64) -> u64 { let mut result = value; if value == 0 { result = 40; value + 1; result += 2; return result; } else if value == 1 { result = 40; 84 / value; result += 2; return result; } else if value == 2 { result = 40; 42 / value; result += 2; return result; } else { result = 40; value + 10; result += 2; return result; } 1 / value }";
    let function = read_function::<4>(source);
    for abi in [X86_64Abi::Windows, X86_64Abi::SystemV] {
        assert!(
            compile_x86_64_function::<_, 1024, 4, 48>(&function, &NoConstants, abi).is_ok()
        );
    }

    for source in [
        "#[unsafe(no_mangle)] pub extern \"C\" fn bad(value: u64, select: bool) -> u64 { let result = value; if select { result = 1; } result }",
        "#[unsafe(no_mangle)] pub extern \"C\" fn bad(value: u64) -> u64 { let mut result = value; if value { result = 1; } result }",
        "#[unsafe(no_mangle)] pub extern \"C\" fn bad(value: u64, select: bool) -> u64 { let mut result = value; if select { result = false; } result }",
        "#[unsafe(no_mangle)] pub extern \"C\" fn bad(value: u64, select: bool) -> u64 { let mut result = value; if select { result += 1; return false; } result }",
    ] {
        let function = read_function::<4>(source);
        assert!(
            compile_x86_64_function::<_, 1024, 4, 48>(
                &function,
                &NoConstants,
                X86_64Abi::Windows,
            )
            .is_err()
        );
    }
}

#[test]
fn emits_scoped_locals_in_conditional_action_blocks() {
    let source = "#[unsafe(no_mangle)] pub extern \"C\" fn choose(value: u64, select: bool) -> u64 { let mut result = value; if select { let mut result: u64 = 40; result += 2; return result; } else { let selected: u64 = 84 / value; selected + 1; result = selected; } result }";
    let function = read_function::<4>(source);
    for abi in [X86_64Abi::Windows, X86_64Abi::SystemV] {
        assert!(
            compile_x86_64_function::<_, 1024, 4, 48>(&function, &NoConstants, abi,).is_ok()
        );
    }

    let function = read_function::<4>("#[unsafe(no_mangle)] pub extern \"C\" fn bad(select: bool) -> u64 { let mut result: u64 = 0; if select { let scoped: u64 = 42; result = scoped; } scoped }");
    assert_eq!(
        compile_x86_64_function::<_, 1024, 4, 48>(&function, &NoConstants, X86_64Abi::Windows,)
            .unwrap_err()
            .kind,
        CodegenErrorKind::UnknownRuntimeName
    );

    let function = read_function::<4>("#[unsafe(no_mangle)] pub extern \"C\" fn crowded(select: bool) -> u64 { let one: u64 = 1; let two: u64 = 2; let three: u64 = 3; let four: u64 = 4; if select { let fifth: u64 = 5; return fifth; } one + two + three + four }");
    assert_eq!(
        compile_x86_64_function::<_, 1024, 4, 48>(&function, &NoConstants, X86_64Abi::Windows,)
            .unwrap_err()
            .kind,
        CodegenErrorKind::TooManyRuntimeLocals
    );
}

#[test]
fn emits_bounded_scalar_while_loop_backedges() {
    let function = read_function::<4>("#[unsafe(no_mangle)] pub extern \"C\" fn count(limit: u64) -> u64 { let mut i: u64 = 0; let mut sum: u64 = 0; while i < limit { sum += i; i += 1; if i == 10 { break; } } sum }");
    for abi in [X86_64Abi::Windows, X86_64Abi::SystemV] {
        let code =
            compile_x86_64_function::<_, 512, 4, 32>(&function, &NoConstants, abi).unwrap();
        assert!(code.bytes().contains(&0xe9));
        assert!(code.bytes().windows(2).any(|bytes| bytes == [0x0f, 0x84]));
    }

    let function = read_function::<4>("#[unsafe(no_mangle)] pub extern \"C\" fn bad(limit: u64) -> u64 { let i: u64 = 0; while i < limit { i += 1; } i }");
    assert_eq!(
        compile_x86_64_function::<_, 512, 4, 32>(&function, &NoConstants, X86_64Abi::Windows,)
            .unwrap_err()
            .kind,
        CodegenErrorKind::ImmutableAssignment
    );

    let function = read_function::<4>("#[unsafe(no_mangle)] pub extern \"C\" fn bad(limit: u64) -> u64 { let mut i: u64 = 0; while i < limit { i += 1; if i { break; } } i }");
    assert_eq!(
        compile_x86_64_function::<_, 512, 4, 32>(&function, &NoConstants, X86_64Abi::Windows,)
            .unwrap_err()
            .kind,
        CodegenErrorKind::RuntimeTypeMismatch
    );
}

#[test]
fn emits_scoped_loop_locals_across_control_edges() {
    let source = "#[unsafe(no_mangle)] pub extern \"C\" fn count(limit: u64, stop: u64) -> u64 { let mut i: u64 = 0; let mut total: u64 = 0; while i < limit { loop { break; } let current: u64 = i + 1; current + 10; i = current; if i % 3 == 0 { let selected: u64 = current; total += selected; } else if i % 2 == 0 { let even: u64 = 2; total += even; } else { let fallback: u64 = 1; total += fallback; } if i % 2 == 0 { let skipped: u64 = current; skipped + 10; continue; } if i == stop { let selected: u64 = current; selected + 20; break; } total + current; } total }";
    let function = read_function::<4>(source);
    for abi in [X86_64Abi::Windows, X86_64Abi::SystemV] {
        let result = compile_x86_64_function::<_, 4096, 4, 64>(&function, &NoConstants, abi);
        assert!(result.is_ok(), "{:#?}", result.err());
    }
    for source in [
        "#[unsafe(no_mangle)] pub extern \"C\" fn count(limit: u64) -> u64 { let mut i: u64 = 0; while i < limit { let current: u64 = i + 1; i = current; continue; } i }",
        "#[unsafe(no_mangle)] pub extern \"C\" fn once() -> u64 { loop { let selected: u64 = 42; selected + 1; break; } 42 }",
        "#[unsafe(no_mangle)] pub extern \"C\" fn return_local() -> u64 { loop { let selected: u64 = 42; return selected; } }",
        "#[unsafe(no_mangle)] pub extern \"C\" fn conditional_return(value: u64) -> u64 { loop { if value == 0 { let selected: u64 = 42; selected + 1; return selected; } return value; } }",
        "#[unsafe(no_mangle)] pub extern \"C\" fn nested_unit_return(limit: u64, enter: bool) { let mut i: u64 = 0; while i < limit { while enter { let selected: u64 = i + 1; selected + 10; return; } i += 1; } }",
        "#[unsafe(no_mangle)] pub extern \"C\" fn nested_conditional_unit_return(limit: u64, stop: u64) { let mut outer: u64 = 0; let mut inner: u64 = 0; while outer < limit { while inner < 3 { inner += 1; if inner == stop { return; } } outer += 1; inner = 0; } }",
        "#[unsafe(no_mangle)] pub extern \"C\" fn nested_conditional_return(limit: u64, stop: u64) -> u64 { let mut outer: u64 = 0; let mut inner: u64 = 0; while outer < limit { while inner < 3 { inner += 1; if inner == stop { return outer + 40; } } outer += 1; inner = 0; } outer }",
        "#[unsafe(no_mangle)] pub extern \"C\" fn nested_ordered_returns(limit: u64, first: u64, second: u64) -> u64 { let mut outer: u64 = 0; let mut inner: u64 = 0; while outer < limit { while inner < 3 { inner += 1; if inner == first { return outer + 40; } if inner == second { return outer + 50; } } outer += 1; inner = 0; } outer }",
        "#[unsafe(no_mangle)] pub extern \"C\" fn nested_continue_then_return(limit: u64, skip: u64, stop: u64) -> u64 { let mut outer: u64 = 0; let mut inner: u64 = 0; while outer < limit { while inner < 3 { inner += 1; if inner == skip { continue; } if inner == stop { return outer + 40; } } outer += 1; inner = 0; } outer }",
        "#[unsafe(no_mangle)] pub extern \"C\" fn nested_multiple_continues(limit: u64, first: u64, second: u64) -> u64 { let mut outer: u64 = 0; let mut inner: u64 = 0; let mut total: u64 = 0; while outer < limit { while inner < 5 { inner += 1; if inner == first { continue; } if inner == second { continue; } total += inner; } outer += 1; inner = 0; } total }",
        "#[unsafe(no_mangle)] pub extern \"C\" fn nested_multiple_breaks(limit: u64, first: u64, second: u64) -> u64 { let mut outer: u64 = 0; let mut inner: u64 = 0; let mut total: u64 = 0; while outer < limit { while inner < 5 { inner += 1; if inner == first { break; } total += inner; if inner == second { break; } } outer += 1; inner = 0; } total }",
        "#[unsafe(no_mangle)] pub extern \"C\" fn nested_unconditional_continue(limit: u64) -> u64 { let mut outer: u64 = 0; let mut inner: u64 = 0; while outer < limit { while inner < 3 { let selected: u64 = inner + 1; inner = selected; continue; let unreachable: u64 = 10 / 0; unreachable; } outer += 1; inner = 0; } outer }",
        "#[unsafe(no_mangle)] pub extern \"C\" fn nested_conditional_only_loop(enter: bool, stop: u64) -> u64 { let mut inner: u64 = 0; while enter { loop { inner += 1; if inner < stop { continue; } if inner == stop { return inner; } } } 0 }",
        "#[unsafe(no_mangle)] pub extern \"C\" fn nested_empty_loop(enter: bool) -> u64 { while enter { loop {} } 42 }",
        "#[unsafe(no_mangle)] pub extern \"C\" fn nested_action_only_loop(enter: bool) -> u64 { while enter { loop { 1; } } 42 }",
    ] {
        let function = read_function::<4>(source);
        for abi in [X86_64Abi::Windows, X86_64Abi::SystemV] {
            assert!(
                compile_x86_64_function::<_, 1536, 4, 48>(&function, &NoConstants, abi,)
                    .is_ok()
            );
        }
    }

    let function = read_function::<4>("#[unsafe(no_mangle)] pub extern \"C\" fn bad(limit: u64) -> u64 { let mut outer: u64 = 0; let mut inner: u64 = 0; while outer < limit { while inner < 3 { inner += 1; continue; let invalid: bool = 1; invalid; } outer += 1; inner = 0; } outer }");
    assert_eq!(
        compile_x86_64_function::<_, 1536, 4, 48>(&function, &NoConstants, X86_64Abi::Windows,)
            .unwrap_err()
            .kind,
        CodegenErrorKind::RuntimeTypeMismatch
    );

    let function = read_function::<2>("#[unsafe(no_mangle)] pub extern \"C\" fn spin(enter: bool) -> u64 { while enter { loop {} } 42 }");
    let machine =
        compile_x86_64_function::<_, 512, 2, 32>(&function, &NoConstants, X86_64Abi::Windows)
            .unwrap();
    assert!(machine.bytes().windows(5).any(|instruction| {
        instruction[0] == 0xe9
            && i32::from_le_bytes([
                instruction[1],
                instruction[2],
                instruction[3],
                instruction[4],
            ]) < 0
    }));

    let function = read_function::<4>("#[unsafe(no_mangle)] pub extern \"C\" fn bad(limit: u64) -> u64 { let mut i: u64 = 0; while i < limit { let scoped: u64 = i; i += 1; } scoped }");
    assert_eq!(
        compile_x86_64_function::<_, 1024, 4, 48>(&function, &NoConstants, X86_64Abi::Windows,)
            .unwrap_err()
            .kind,
        CodegenErrorKind::UnknownRuntimeName
    );

    let function = read_function::<4>("#[unsafe(no_mangle)] pub extern \"C\" fn crowded(limit: u64) -> u64 { let mut i: u64 = 0; let one: u64 = 1; let two: u64 = 2; let three: u64 = 3; while i < limit { let fifth: u64 = i; i += fifth; } one + two + three }");
    assert_eq!(
        compile_x86_64_function::<_, 1024, 4, 48>(&function, &NoConstants, X86_64Abi::Windows,)
            .unwrap_err()
            .kind,
        CodegenErrorKind::TooManyRuntimeLocals
    );
}

#[test]
fn emits_empty_while_and_top_level_diverging_loop_backedges() {
    for source in [
        "#[unsafe(no_mangle)] pub extern \"C\" fn probe(enter: bool) -> u64 { while enter {} 42 }",
        "#[unsafe(no_mangle)] pub extern \"C\" fn spin() -> u64 { loop {} }",
        "#[unsafe(no_mangle)] pub extern \"C\" fn spin() -> u64 { loop { 1; } }",
    ] {
        let function = read_function::<2>(source);
        for abi in [X86_64Abi::Windows, X86_64Abi::SystemV] {
            let machine =
                compile_x86_64_function::<_, 512, 2, 32>(&function, &NoConstants, abi).unwrap();
            assert!(machine.bytes().windows(5).any(|instruction| {
                instruction[0] == 0xe9
                    && i32::from_le_bytes([
                        instruction[1],
                        instruction[2],
                        instruction[3],
                        instruction[4],
                    ]) < 0
            }));
        }
    }
}

#[test]
fn emits_matching_labels_on_statement_loop_controls() {
    let source = "#[unsafe(no_mangle)] pub extern \"C\" fn probe(limit: u64, stop: u64) -> u64 { let mut i: u64 = 0; let mut total: u64 = 0; 'count: while i < limit { i += 1; if i % 2 == 0 { continue 'count; } else if i == stop { break 'count; } total += i; } 'once: loop { break 'once; } total }";
    let function = read_function::<4>(source);
    for abi in [X86_64Abi::Windows, X86_64Abi::SystemV] {
        assert!(
            compile_x86_64_function::<_, 2048, 4, 64>(&function, &NoConstants, abi).is_ok()
        );
    }
}

#[test]
fn emits_labeled_controls_targeting_inner_and_outer_loops() {
    for source in [
        "#[unsafe(no_mangle)] pub extern \"C\" fn probe(limit: u64, stop: u64) -> u64 { let mut outer: u64 = 0; let mut total: u64 = 0; 'outer: while outer < limit { outer += 1; 'inner: loop { let selected: u64 = outer; if selected == 0 { continue 'inner; } if selected % 2 == 0 { continue 'outer; } if selected == stop { break 'outer; } break 'inner; } total += outer; } total }",
        "#[unsafe(no_mangle)] pub extern \"C\" fn probe(limit: u64) -> u64 { let mut outer: u64 = 0; 'outer: while outer < limit { outer += 1; 'inner: loop { continue 'outer; } } outer }",
        "#[unsafe(no_mangle)] pub extern \"C\" fn probe(enter: bool) -> u64 { let mut outer: u64 = 0; 'outer: while enter { outer += 1; 'inner: loop { break 'outer; } } outer }",
    ] {
        let function = read_function::<4>(source);
        for abi in [X86_64Abi::Windows, X86_64Abi::SystemV] {
            assert!(
                compile_x86_64_function::<_, 3072, 4, 96>(&function, &NoConstants, abi,)
                    .is_ok()
            );
        }
    }
}

#[test]
fn emits_bounded_unconditional_loops_and_explicit_continue() {
    let sources = [
        "#[unsafe(no_mangle)] pub extern \"C\" fn once() -> u64 { let mut value: u64 = 0; loop { value += 1; if value == 1 { break; } } value }",
        "#[unsafe(no_mangle)] pub extern \"C\" fn count(limit: u64) -> u64 { let mut value: u64 = 0; while value < limit { value += 1; continue; } value }",
        "#[unsafe(no_mangle)] pub extern \"C\" fn immediate() -> u64 { loop { break; } 42 }",
        "#[unsafe(no_mangle)] pub extern \"C\" fn classify(limit: usize) -> usize { let mut i: usize = 0; let mut is_even: bool = false; loop { if i == limit { break; } is_even = false; i += 1; if i % 2 != 0 { continue; } is_even = true; } if is_even { i } else { 0 } }",
    ];
    for source in sources {
        let function = read_function::<4>(source);
        for abi in [X86_64Abi::Windows, X86_64Abi::SystemV] {
            assert!(
                compile_x86_64_function::<_, 512, 4, 32>(&function, &NoConstants, abi,).is_ok()
            );
        }
    }

    let function = read_function::<4>("#[unsafe(no_mangle)] pub extern \"C\" fn endless() -> u64 { let mut value: u64 = 0; loop { value += 1; continue; } value }");
    let body = function.body.as_ref().unwrap();
    assert_eq!(body.tail, "value");
    for abi in [X86_64Abi::Windows, X86_64Abi::SystemV] {
        assert!(compile_x86_64_function::<_, 512, 4, 32>(&function, &NoConstants, abi).is_ok());
    }
}

#[test]
fn emits_typed_returns_inside_loops() {
    let sources = [
        "#[unsafe(no_mangle)] pub extern \"C\" fn find(limit: u64) -> u64 { let mut value: u64 = 0; while value < limit { if value == 42 { return value; } value += 1; } limit }",
        "#[unsafe(no_mangle)] pub extern \"C\" fn divisible(value: u32) -> bool { let mut divisor: u32 = 2; loop { if value % divisor == 0 { return true; } divisor += 1; } false }",
        "#[unsafe(no_mangle)] pub extern \"C\" fn immediate(value: u64) -> u64 { loop { return value + 1; } }",
        "#[unsafe(no_mangle)] pub extern \"C\" fn immediate(value: bool) -> bool { loop { return !value; } }",
    ];
    for source in sources {
        let function = read_function::<4>(source);
        for abi in [X86_64Abi::Windows, X86_64Abi::SystemV] {
            let code =
                compile_x86_64_function::<_, 768, 4, 48>(&function, &NoConstants, abi).unwrap();
            assert!(code.bytes().contains(&0xc3));
        }
    }

    for source in [
        "#[unsafe(no_mangle)] pub extern \"C\" fn bad(value: u64) -> u64 { loop { if value { return value; } } 0 }",
        "#[unsafe(no_mangle)] pub extern \"C\" fn bad(value: u64) -> u64 { loop { if value == 0 { return false; } } 0 }",
        "#[unsafe(no_mangle)] pub extern \"C\" fn bad() -> u64 { loop { return false; } }",
    ] {
        let function = read_function::<2>(source);
        assert_eq!(
            compile_x86_64_function::<_, 512, 2, 32>(
                &function,
                &NoConstants,
                X86_64Abi::Windows,
            )
            .unwrap_err()
            .kind,
            CodegenErrorKind::RuntimeTypeMismatch
        );
    }
}

#[test]
fn emits_typed_immediate_break_loop_values() {
    let sources = [
        "#[unsafe(no_mangle)] pub extern \"C\" fn value(input: u64) -> u64 { let result: u64 = loop { break input + 1; }; result }",
        "#[unsafe(no_mangle)] pub extern \"C\" fn value(input: bool) -> bool { let result: bool = loop { break input; }; result }",
        "#[unsafe(no_mangle)] pub extern \"C\" fn value() -> u64 { let result: u64 = loop { break 13; }; result }",
        "#[unsafe(no_mangle)] pub extern \"C\" fn value(choose_first: bool, input: u64) -> u64 { let result: u64 = loop { if choose_first { break input + 1; } break 84 / input; }; result }",
        "#[unsafe(no_mangle)] pub extern \"C\" fn value() -> u64 { let first: () = loop { break (); break; }; first; let second: () = loop { break; break (); }; second; 42 }",
        "#[unsafe(no_mangle)] pub extern \"C\" fn value() -> u64 { let first: () = loop { if true { break; } else { break break Default::default(); } }; first; let second: () = loop { if true { break Default::default(); } else { break; } }; second; let third: () = loop { break if true { Default::default() } else { break; }; }; third; 42 }",
        "#[unsafe(no_mangle)] pub extern \"C\" fn value() -> u64 { let integer: u64 = Default::default(); let boolean: bool = Default::default(); integer; if boolean { 1 / 0 } else { integer + 42 } }",
    ];
    for source in sources {
        let function = read_function::<4>(source);
        for abi in [X86_64Abi::Windows, X86_64Abi::SystemV] {
            let result = compile_x86_64_function::<_, 512, 4, 32>(&function, &NoConstants, abi);
            assert!(result.is_ok(), "{source}: {result:?}");
        }
    }

    let function = read_function::<4>("#[unsafe(no_mangle)] pub extern \"C\" fn bad() -> u64 { let result: u64 = loop { break false; }; result }");
    assert_eq!(
        compile_x86_64_function::<_, 512, 4, 32>(&function, &NoConstants, X86_64Abi::Windows,)
            .unwrap_err()
            .kind,
        CodegenErrorKind::RuntimeTypeMismatch
    );

    let function = read_function::<4>("#[unsafe(no_mangle)] pub extern \"C\" fn bad(flag: bool) -> u64 { let result = loop { if flag { break 1; } break false; }; result }");
    assert_eq!(
        compile_x86_64_function::<_, 512, 4, 32>(&function, &NoConstants, X86_64Abi::Windows,)
            .unwrap_err()
            .kind,
        CodegenErrorKind::RuntimeTypeMismatch
    );

    let function = read_function::<4>("#[unsafe(no_mangle)] pub extern \"C\" fn bad() -> u64 { let result = loop { break 1; break false; }; result }");
    assert_eq!(
        compile_x86_64_function::<_, 512, 4, 32>(&function, &NoConstants, X86_64Abi::Windows,)
            .unwrap_err()
            .kind,
        CodegenErrorKind::RuntimeTypeMismatch
    );

    let function = read_function::<4>("#[unsafe(no_mangle)] pub extern \"C\" fn bad() -> u64 { let result = Default::default(); result }");
    assert_eq!(
        compile_x86_64_function::<_, 512, 4, 32>(&function, &NoConstants, X86_64Abi::Windows,)
            .unwrap_err()
            .kind,
        CodegenErrorKind::RuntimeTypeMismatch
    );
}

#[test]
fn emits_bounded_scalar_array_literal_indexes() {
    for source in [
        "#[unsafe(no_mangle)] pub extern \"C\" fn value() -> u64 { [13u64, 42, 99][1] }",
        "#[unsafe(no_mangle)] pub extern \"C\" fn value() -> u32 { [1u32, 3, 5][2] }",
    ] {
        let function = read_function::<2>(source);
        for abi in [X86_64Abi::Windows, X86_64Abi::SystemV] {
            assert!(
                compile_x86_64_function::<_, 128, 2, 24>(&function, &NoConstants, abi).is_ok()
            );
        }
    }

    let function = read_function::<2>("#[unsafe(no_mangle)] pub extern \"C\" fn bad() -> u64 { [1u64, false][0] }");
    assert_eq!(
        compile_x86_64_function::<_, 128, 2, 24>(&function, &NoConstants, X86_64Abi::Windows)
            .unwrap_err()
            .kind,
        CodegenErrorKind::RuntimeTypeMismatch
    );
}

#[test]
fn emits_contextual_array_defaults_from_loop_breaks() {
    let source = "#[unsafe(no_mangle)] pub extern \"C\" fn value() -> u64 { (loop { break if true { break Default::default() } else { break [13u64, 14] }; })[0] + (loop { if false { break [1 / 0, 14] } else { break Default::default() } })[1] + (loop { break if false { break Default::default() } else { [42, 43] }; })[1] }";
    let function = read_function::<2>(source);
    for abi in [X86_64Abi::Windows, X86_64Abi::SystemV] {
        let result = compile_x86_64_function::<_, 256, 2, 64>(&function, &NoConstants, abi);
        assert!(result.is_ok(), "{result:?}");
    }
}

#[test]
fn stores_fixed_array_locals_for_scalar_indexes_and_assignment() {
    let sources = [
        "#[unsafe(no_mangle)] pub extern \"C\" fn value() -> u64 { let values: [u64; 3] = [13, 42, 99]; values[1] }",
        "#[unsafe(no_mangle)] pub extern \"C\" fn value(input: u64) -> u64 { let before: u64 = input; let values = [13u64, 42, 99]; let after: u64 = 1; before + values[1] + after }",
        "#[unsafe(no_mangle)] pub extern \"C\" fn value() -> u64 { let values: [u64; 2] = Default::default(); values[0] + values[1] }",
        "#[unsafe(no_mangle)] pub extern \"C\" fn value(input: u64) -> u64 { let values = [input + 1; 3]; values[0] + values[1] + values[2] }",
        "#[unsafe(no_mangle)] pub extern \"C\" fn value(select: bool) -> bool { let values = [select; 2usize]; values[0] & values[1] }",
        "#[unsafe(no_mangle)] pub extern \"C\" fn value(input: u64, divisor: u64) -> u64 { let values: [u64; 0] = [input / divisor; 0]; 42 }",
        "#[unsafe(no_mangle)] pub extern \"C\" fn value(select: bool) -> u64 { let values: [u64; 2] = loop { break if select { break [13, 14] } else { break Default::default() }; }; values[0] + values[1] }",
        "#[unsafe(no_mangle)] pub extern \"C\" fn value(select: bool) -> u64 { let choice: bool = select; let values = if choice { [13u64, 14] } else { [20, 22] }; values[0] + values[1] }",
        "#[unsafe(no_mangle)] pub extern \"C\" fn value() -> u64 { let mut values = [13u64, 14]; values = [20, 22]; values[0] + values[1] }",
        "#[unsafe(no_mangle)] pub extern \"C\" fn value() -> u64 { let mut values = [13u64, 42]; values = [values[1], values[0]]; values[0] * 100 + values[1] }",
        "#[unsafe(no_mangle)] pub extern \"C\" fn value(select: bool) -> u64 { let mut values = [1u64, 2]; if select { values = [20, 22]; } else { values = [13, 14]; } values[0] + values[1] }",
    ];
    for source in sources {
        let function = read_function::<4>(source);
        for abi in [X86_64Abi::Windows, X86_64Abi::SystemV] {
            let result = compile_x86_64_function::<_, 512, 4, 64>(&function, &NoConstants, abi);
            assert!(result.is_ok(), "{source}: {result:?}");
        }
    }

    let function = read_function::<2>("#[unsafe(no_mangle)] pub extern \"C\" fn bad() -> u64 { let mut values: [u64; 2] = [1, 2]; values += [3, 4]; values[0] }");
    assert_eq!(
        compile_x86_64_function::<_, 128, 2, 32>(&function, &NoConstants, X86_64Abi::Windows)
            .unwrap_err()
            .kind,
        CodegenErrorKind::UnsupportedRuntimeOperator
    );
}

#[test]
fn emits_bounded_runtime_array_indexes() {
    let sources = [
        "#[unsafe(no_mangle)] pub extern \"C\" fn value(index: usize) -> usize { [13usize, 42, 99][index] }",
        "#[unsafe(no_mangle)] pub extern \"C\" fn value(index: usize) -> usize { let values = [13usize, 42, 99]; values[index] }",
        "#[unsafe(no_mangle)] pub extern \"C\" fn value(index: usize, divisor: usize) -> usize { [84 / divisor, 42][index] }",
        "#[unsafe(no_mangle)] pub extern \"C\" fn value(select: bool, index: usize, divisor: usize) -> usize { (if select { [84 / divisor, 42] } else { [13, 14] })[index] }",
        "#[unsafe(no_mangle)] pub extern \"C\" fn value(index: usize) -> bool { let values = [false, true]; values[index] }",
    ];
    for source in sources {
        let function = read_function::<4>(source);
        for abi in [X86_64Abi::Windows, X86_64Abi::SystemV] {
            let code = compile_x86_64_function::<_, 1024, 4, 64>(&function, &NoConstants, abi)
                .unwrap();
            assert!(code.bytes().windows(2).any(|bytes| bytes == [0x0f, 0x0b]));
        }
    }

    let function = read_function::<2>("#[unsafe(no_mangle)] pub extern \"C\" fn bad(index: u64) -> u64 { [13u64, 42][index] }");
    assert_eq!(
        compile_x86_64_function::<_, 256, 2, 32>(&function, &NoConstants, X86_64Abi::Windows)
            .unwrap_err()
            .kind,
        CodegenErrorKind::RuntimeTypeMismatch
    );
}

#[test]
fn stores_fixed_array_elements_through_constant_and_runtime_indexes() {
    let sources = [
        "#[unsafe(no_mangle)] pub extern \"C\" fn value() -> u64 { let mut values = [13u64, 42, 99]; values[1] = 20; values[0] + values[1] + values[2] }",
        "#[unsafe(no_mangle)] pub extern \"C\" fn value(index: usize) -> usize { let mut values = [13usize, 42, 99]; let after = 1usize; values[index] += after; values[index] + after }",
        "#[unsafe(no_mangle)] pub extern \"C\" fn value(index: usize) -> bool { let mut values = [false, true]; values[index] ^= true; values[index] }",
        "#[unsafe(no_mangle)] pub extern \"C\" fn value() -> char { let mut values = ['a', 'b']; values[0] = 'z'; values[0] }",
        "#[unsafe(no_mangle)] pub extern \"C\" fn value(index: usize) { let mut values = [(), ()]; values[index] = (); values[index] }",
        "#[unsafe(no_mangle)] pub extern \"C\" fn value(select: bool, index: usize) -> usize { let mut values = [1usize, 2]; if select { values[index] = 20; } else { values[index] = 13; } values[index] }",
        "#[unsafe(no_mangle)] pub extern \"C\" fn value() -> usize { let mut values = [1usize, 2]; let mut index = 0usize; while index < 2 { values[index] += 1; index += 1; } values[0] + values[1] }",
    ];
    for source in sources {
        let function = read_function::<4>(source);
        for abi in [X86_64Abi::Windows, X86_64Abi::SystemV] {
            let result =
                compile_x86_64_function::<_, 1536, 4, 64>(&function, &NoConstants, abi);
            assert!(result.is_ok(), "{source}: {result:?}");
        }
    }

    let invalid = [
        (
            "#[unsafe(no_mangle)] pub extern \"C\" fn value() -> u64 { let values = [1u64, 2]; values[0] = 3; values[0] }",
            CodegenErrorKind::ImmutableAssignment,
        ),
        (
            "#[unsafe(no_mangle)] pub extern \"C\" fn value() -> u64 { let mut value = 1u64; value[0] = 3; value }",
            CodegenErrorKind::RuntimeTypeMismatch,
        ),
        (
            "#[unsafe(no_mangle)] pub extern \"C\" fn value(index: u64) -> u64 { let mut values = [1u64, 2]; values[index] = 3; values[0] }",
            CodegenErrorKind::RuntimeTypeMismatch,
        ),
        (
            "#[unsafe(no_mangle)] pub extern \"C\" fn value() -> u64 { let mut values = [1u64, 2]; values[2] = 3; values[0] }",
            CodegenErrorKind::Execution(ExecutionError::Arithmetic(
                ConstEvalError::ArrayIndexOutOfBounds,
            )),
        ),
        (
            "#[unsafe(no_mangle)] pub extern \"C\" fn value() -> char { let mut values = ['a', 'b']; values[0] += 'c'; values[0] }",
            CodegenErrorKind::UnsupportedRuntimeOperator,
        ),
    ];
    for (source, expected) in invalid {
        let function = read_function::<2>(source);
        assert_eq!(
            compile_x86_64_function::<_, 512, 2, 64>(
                &function,
                &NoConstants,
                X86_64Abi::Windows,
            )
            .unwrap_err()
            .kind,
            expected,
            "{source}",
        );
    }
}

#[test]
fn loads_one_word_fixed_array_parameters() {
    let sources = [
        "#[unsafe(no_mangle)] pub extern \"C\" fn value(values: [u64; 1], after: u64) -> u64 { values[0] + after }",
        "#[unsafe(no_mangle)] pub extern \"C\" fn value(values: [u64; 1]) -> u64 { let copied = values; copied[0] }",
        "#[unsafe(no_mangle)] pub extern \"C\" fn value(values: [bool; 1]) -> bool { values[0] }",
        "#[unsafe(no_mangle)] pub extern \"C\" fn value(values: [char; 1]) -> char { values[0] }",
        "#[unsafe(no_mangle)] pub extern \"C\" fn value(values: [u64; 2], after: u64) -> u64 { values[0] + values[1] + after }",
        "#[unsafe(no_mangle)] pub extern \"C\" fn value(before: u64, values: [u64; 3], after: u64) -> u64 { before + values[0] + values[1] + values[2] + after }",
        "#[unsafe(no_mangle)] pub extern \"C\" fn value(a: u64, b: u64, c: u64, d: u64, e: u64, values: [u64; 2], after: u64) -> u64 { a + b + c + d + e + values[0] + values[1] + after }",
        "#[unsafe(no_mangle)] pub extern \"C\" fn value(values: [u8; 4]) -> u8 { values[0] + values[1] + values[2] + values[3] }",
        "#[unsafe(no_mangle)] pub extern \"C\" fn value(values: [u16; 5]) -> u16 { values[0] + values[4] }",
        "#[unsafe(no_mangle)] pub extern \"C\" fn value(values: [u32; 2]) -> u32 { values[0] + values[1] }",
        "#[unsafe(no_mangle)] pub extern \"C\" fn value(values: [i16; 3]) -> i16 { values[0] + values[2] }",
        "#[unsafe(no_mangle)] pub extern \"C\" fn value(values: [char; 2]) -> char { values[1] }",
        "#[unsafe(no_mangle)] pub extern \"C\" fn value(values: [bool; 3]) -> bool { values[0] ^ values[2] }",
        "#[unsafe(no_mangle)] pub extern \"C\" fn value(values: [u32; 2]) -> u64 { values[0] as u64 }",
        "#[unsafe(no_mangle)] pub extern \"C\" fn value(a: u64, empty: [u8; 0], b: u64, c: u64) -> u64 { a + b + c }",
        "#[unsafe(no_mangle)] pub extern \"C\" fn value(a: u64, units: [(); 3], b: u64, c: u64) -> u64 { a + b + c }",
    ];
    for source in sources {
        let function = read_function::<8>(source);
        for abi in [X86_64Abi::Windows, X86_64Abi::SystemV] {
            let result = compile_x86_64_function::<_, 768, 8, 64>(&function, &NoConstants, abi);
            assert!(result.is_ok(), "{source}: {result:?}");
        }
    }
}

#[test]
fn loads_immutable_scalar_reference_parameters() {
    let sources = [
        "#[unsafe(no_mangle)] pub extern \"C\" fn value(before: u64, input: &u64, after: u64) -> u64 { let copied = input; before + *copied + after }",
        "#[unsafe(no_mangle)] pub extern \"C\" fn value(input: &i16) -> i16 { *input }",
        "#[unsafe(no_mangle)] pub extern \"C\" fn value(input: &bool) -> bool { *input }",
        "#[unsafe(no_mangle)] pub extern \"C\" fn value(input: &char) -> char { *input }",
    ];
    for source in sources {
        let function = read_function::<4>(source);
        for abi in [X86_64Abi::Windows, X86_64Abi::SystemV] {
            let result = compile_x86_64_function::<_, 512, 4, 48>(&function, &NoConstants, abi);
            assert!(result.is_ok(), "{source}: {result:?}");
        }
    }
}

#[test]
fn returns_thin_references() {
    let sources = [
        "#[unsafe(no_mangle)] pub extern \"C\" fn value(input: &u16) -> &u16 { input }",
        "#[unsafe(no_mangle)] pub extern \"C\" fn value(input: &mut i32) -> &mut i32 { input }",
        "#[unsafe(no_mangle)] pub extern \"C\" fn value(input: &[u8; 4]) -> &[u8; 4] { input }",
        "#[unsafe(no_mangle)] pub extern \"C\" fn value(input: &u16) -> &u16 { let copied: &u16 = input; copied }",
        "#[unsafe(no_mangle)] pub extern \"C\" fn value(input: &u16) -> &u16 { &*input }",
        "#[unsafe(no_mangle)] pub extern \"C\" fn value(input: &mut u16) -> &mut u16 { &mut *input }",
        "#[unsafe(no_mangle)] pub extern \"C\" fn value(input: &mut u16) -> &u16 { input }",
    ];
    for source in sources {
        let function = read_function::<4>(source);
        for abi in [X86_64Abi::Windows, X86_64Abi::SystemV] {
            let result = compile_x86_64_function::<_, 768, 4, 96>(&function, &NoConstants, abi);
            assert!(result.is_ok(), "{source}: {result:?}");
        }
    }

    let source =
        "#[unsafe(no_mangle)] pub extern \"C\" fn value(input: &u16) -> &mut u16 { input }";
    let function = read_function::<2>(source);
    assert_eq!(
        compile_x86_64_function::<_, 512, 2, 64>(&function, &NoConstants, X86_64Abi::Windows,)
            .unwrap_err()
            .kind,
        CodegenErrorKind::RuntimeTypeMismatch,
    );
}

#[test]
fn returns_slice_references() {
    let sources = [
        "#[unsafe(no_mangle)] pub extern \"C\" fn value(input: &[u16]) -> &[u16] { input }",
        "#[unsafe(no_mangle)] pub extern \"C\" fn value(input: &mut [i32]) -> &mut [i32] { input }",
        "#[unsafe(no_mangle)] pub extern \"C\" fn value(input: &[u8]) -> &[u8] { let copied: &[u8] = input; copied }",
        "#[unsafe(no_mangle)] pub extern \"C\" fn value(input: &[u16]) -> &[u16] { &input[..] }",
        "#[unsafe(no_mangle)] pub extern \"C\" fn value(input: &[u16], start: usize, end: usize) -> &[u16] { &input[start..end] }",
        "#[unsafe(no_mangle)] pub extern \"C\" fn value(input: &mut [u16], start: usize, end: usize) -> &mut [u16] { &mut input[start..end] }",
        "#[unsafe(no_mangle)] pub extern \"C\" fn value(input: &mut [u16]) -> &[u16] { input }",
    ];
    for source in sources {
        let function = read_function::<4>(source);
        for abi in [X86_64Abi::Windows, X86_64Abi::SystemV] {
            let result =
                compile_x86_64_function::<_, 2048, 4, 160>(&function, &NoConstants, abi);
            assert!(result.is_ok(), "{source}: {result:?}");
        }
    }
}

#[test]
fn creates_and_returns_indexed_element_references() {
    let sources = [
        "#[unsafe(no_mangle)] pub extern \"C\" fn value(input: &[u16], index: usize) -> &u16 { &input[index] }",
        "#[unsafe(no_mangle)] pub extern \"C\" fn value(input: &mut [i32], index: usize) -> &mut i32 { &mut input[index] }",
        "#[unsafe(no_mangle)] pub extern \"C\" fn value(input: &[u8; 4], index: usize) -> &u8 { &input[index] }",
        "#[unsafe(no_mangle)] pub extern \"C\" fn value(input: &mut [u16; 4], index: usize) -> &mut u16 { &mut input[index] }",
        "#[unsafe(no_mangle)] pub extern \"C\" fn value(input: u16, index: usize) -> u16 { let mut values = [input, 40u16]; let selected: &mut u16 = &mut values[index]; *selected += 2; values[index] }",
    ];
    for source in sources {
        let function = read_function::<4>(source);
        for abi in [X86_64Abi::Windows, X86_64Abi::SystemV] {
            let result =
                compile_x86_64_function::<_, 2048, 4, 160>(&function, &NoConstants, abi);
            assert!(result.is_ok(), "{source}: {result:?}");
        }
    }

    let source = "#[unsafe(no_mangle)] pub extern \"C\" fn value(input: &[u16], index: usize) -> &mut u16 { &mut input[index] }";
    let function = read_function::<2>(source);
    assert_eq!(
        compile_x86_64_function::<_, 512, 2, 64>(&function, &NoConstants, X86_64Abi::Windows,)
            .unwrap_err()
            .kind,
        CodegenErrorKind::ImmutableAssignment,
    );

    let source = "#[unsafe(no_mangle)] pub extern \"C\" fn value(input: &[u16]) -> &u16 { &input[true] }";
    let function = read_function::<2>(source);
    assert_eq!(
        compile_x86_64_function::<_, 512, 2, 64>(&function, &NoConstants, X86_64Abi::Windows,)
            .unwrap_err()
            .kind,
        CodegenErrorKind::RuntimeTypeMismatch,
    );
}

#[test]
fn returns_conditional_slice_references() {
    let sources = [
        "#[unsafe(no_mangle)] pub extern \"C\" fn value(input: &[u16], select: bool) -> &[u16] { if select { &input[..1] } else { &input[1..] } }",
        "#[unsafe(no_mangle)] pub extern \"C\" fn value(input: &mut [u16], select: bool) -> &mut [u16] { if select { &mut input[..1] } else { &mut input[1..] } }",
        "#[unsafe(no_mangle)] pub extern \"C\" fn value(input: &mut [u16], select: bool) -> &[u16] { if select { input } else { &input[1..] } }",
    ];
    for source in sources {
        let function = read_function::<4>(source);
        for abi in [X86_64Abi::Windows, X86_64Abi::SystemV] {
            let result =
                compile_x86_64_function::<_, 3072, 4, 192>(&function, &NoConstants, abi);
            assert!(result.is_ok(), "{source}: {result:?}");
        }
    }
}

#[test]
fn stores_conditional_slice_references_in_locals() {
    let sources = [
        "#[unsafe(no_mangle)] pub extern \"C\" fn value(input: &[u16], select: bool) -> &[u16] { let selected: &[u16] = if select { &input[..1] } else { &input[1..] }; selected }",
        "#[unsafe(no_mangle)] pub extern \"C\" fn value(input: &mut [u16], select: bool) -> u16 { let selected: &mut [u16] = if select { &mut input[..1] } else { &mut input[1..] }; selected[0] += 2; selected[0] }",
        "#[unsafe(no_mangle)] pub extern \"C\" fn value(input: &[u16], select: bool) -> usize { let selected = if select { &input[..1] } else { &input[1..] }; selected.len() }",
    ];
    for source in sources {
        let function = read_function::<4>(source);
        for abi in [X86_64Abi::Windows, X86_64Abi::SystemV] {
            let result =
                compile_x86_64_function::<_, 4096, 4, 224>(&function, &NoConstants, abi);
            assert!(result.is_ok(), "{source}: {result:?}");
        }
    }
}

#[test]
fn replaces_slice_reference_locals() {
    let sources = [
        "#[unsafe(no_mangle)] pub extern \"C\" fn value(input: &[u16], select: bool) -> &[u16] { let mut selected: &[u16] = &input[..1]; if select { selected = &input[1..]; } selected }",
        "#[unsafe(no_mangle)] pub extern \"C\" fn value(input: &mut [u16], select: bool) -> u16 { let mut selected: &mut [u16] = &mut input[..1]; if select { selected = &mut input[1..]; } selected[0] += 2; selected[0] }",
        "#[unsafe(no_mangle)] pub extern \"C\" fn value(input: &mut [u16]) -> usize { let mut selected: &[u16] = input; selected = &input[1..]; selected.len() }",
    ];
    for source in sources {
        let function = read_function::<4>(source);
        for abi in [X86_64Abi::Windows, X86_64Abi::SystemV] {
            let result =
                compile_x86_64_function::<_, 4096, 4, 224>(&function, &NoConstants, abi);
            assert!(result.is_ok(), "{source}: {result:?}");
        }
    }
}

#[test]
fn supports_string_slice_references() {
    let sources = [
        "#[unsafe(no_mangle)] pub extern \"C\" fn value(input: &str) -> usize { input.len() }",
        "#[unsafe(no_mangle)] pub extern \"C\" fn value(input: &str) -> bool { input.is_empty() }",
        "#[unsafe(no_mangle)] pub extern \"C\" fn value(input: &str) -> &str { input }",
        "#[unsafe(no_mangle)] pub extern \"C\" fn value(input: &str, select: bool) -> &str { let selected: &str = if select { input } else { input }; selected }",
        "#[unsafe(no_mangle)] pub extern \"C\" fn value(input: &mut str) -> &str { input }",
    ];
    for source in sources {
        let function = read_function::<4>(source);
        for abi in [X86_64Abi::Windows, X86_64Abi::SystemV] {
            let result =
                compile_x86_64_function::<_, 2048, 4, 160>(&function, &NoConstants, abi);
            assert!(result.is_ok(), "{source}: {result:?}");
        }
    }

    let source =
        "#[unsafe(no_mangle)] pub extern \"C\" fn value(input: &str) -> u8 { input[0] }";
    let function = read_function::<2>(source);
    assert_eq!(
        compile_x86_64_function::<_, 512, 2, 64>(&function, &NoConstants, X86_64Abi::Windows,)
            .unwrap_err()
            .kind,
        CodegenErrorKind::RuntimeTypeMismatch,
    );
}

#[test]
fn creates_utf8_checked_string_ranges() {
    let sources = [
        "#[unsafe(no_mangle)] pub extern \"C\" fn value(input: &str, start: usize, end: usize) -> &str { &input[start..end] }",
        "#[unsafe(no_mangle)] pub extern \"C\" fn value(input: &str, end: usize) -> &str { &input[..end] }",
        "#[unsafe(no_mangle)] pub extern \"C\" fn value(input: &str, start: usize) -> &str { &input[start..] }",
        "#[unsafe(no_mangle)] pub extern \"C\" fn value(input: &str) -> &str { &input[..] }",
        "#[unsafe(no_mangle)] pub extern \"C\" fn value(input: &str, start: usize, end: usize) -> &str { &input[start..=end] }",
        "#[unsafe(no_mangle)] pub extern \"C\" fn value(input: &mut str, start: usize, end: usize) -> &mut str { &mut input[start..end] }",
    ];
    for source in sources {
        let function = read_function::<4>(source);
        for abi in [X86_64Abi::Windows, X86_64Abi::SystemV] {
            let result =
                compile_x86_64_function::<_, 3072, 4, 192>(&function, &NoConstants, abi);
            assert!(result.is_ok(), "{source}: {result:?}");
        }
    }
}

#[test]
fn converts_string_slices_to_bytes() {
    let sources = [
        "#[unsafe(no_mangle)] pub extern \"C\" fn value(input: &str) -> &[u8] { input.as_bytes() }",
        "#[unsafe(no_mangle)] pub extern \"C\" fn value(input: &str, index: usize) -> u8 { let bytes: &[u8] = input.as_bytes(); bytes[index] }",
        "#[unsafe(no_mangle)] pub extern \"C\" fn value(input: &str) -> usize { input.as_bytes().len() }",
        "#[unsafe(no_mangle)] pub extern \"C\" fn value(input: &mut str) -> &[u8] { input.as_bytes() }",
    ];
    for source in sources {
        let function = read_function::<4>(source);
        for abi in [X86_64Abi::Windows, X86_64Abi::SystemV] {
            let result =
                compile_x86_64_function::<_, 2048, 4, 160>(&function, &NoConstants, abi);
            assert!(result.is_ok(), "{source}: {result:?}");
        }
    }

    let source = "#[unsafe(no_mangle)] pub extern \"C\" fn value(input: &mut str) -> u8 { let bytes: &mut [u8] = input.as_bytes(); bytes[0] }";
    let function = read_function::<2>(source);
    assert_eq!(
        compile_x86_64_function::<_, 512, 2, 64>(&function, &NoConstants, X86_64Abi::Windows,)
            .unwrap_err()
            .kind,
        CodegenErrorKind::RuntimeTypeMismatch,
    );
}

#[test]
fn checks_string_character_boundaries() {
    let sources = [
        "#[unsafe(no_mangle)] pub extern \"C\" fn value(input: &str, index: usize) -> bool { input.is_char_boundary(index) }",
        "#[unsafe(no_mangle)] pub extern \"C\" fn value(input: &str) -> bool { input.is_char_boundary(0) && input.is_char_boundary(input.len()) }",
        "#[unsafe(no_mangle)] pub extern \"C\" fn value(input: &str, index: usize) -> bool { let copied: &str = input; copied.is_char_boundary(index) }",
    ];
    for source in sources {
        let function = read_function::<4>(source);
        for abi in [X86_64Abi::Windows, X86_64Abi::SystemV] {
            let result =
                compile_x86_64_function::<_, 2048, 4, 160>(&function, &NoConstants, abi);
            assert!(result.is_ok(), "{source}: {result:?}");
        }
    }

    for source in [
        "#[unsafe(no_mangle)] pub extern \"C\" fn value(input: &[u8], index: usize) -> bool { input.is_char_boundary(index) }",
        "#[unsafe(no_mangle)] pub extern \"C\" fn value(input: &str) -> bool { input.is_char_boundary(true) }",
    ] {
        let function = read_function::<2>(source);
        assert_eq!(
            compile_x86_64_function::<_, 768, 2, 80>(
                &function,
                &NoConstants,
                X86_64Abi::Windows,
            )
            .unwrap_err()
            .kind,
            CodegenErrorKind::RuntimeTypeMismatch,
        );
    }
}

#[test]
fn exposes_reference_data_pointers() {
    let sources = [
        "#[unsafe(no_mangle)] pub extern \"C\" fn value(input: &[u16]) -> *const u16 { input.as_ptr() }",
        "#[unsafe(no_mangle)] pub extern \"C\" fn value(input: &mut [u16]) -> *mut u16 { input.as_mut_ptr() }",
        "#[unsafe(no_mangle)] pub extern \"C\" fn value(input: &str) -> *const u8 { input.as_ptr() }",
        "#[unsafe(no_mangle)] pub extern \"C\" fn value(input: *mut u16) -> *const u16 { let copied: *const u16 = input; copied }",
    ];
    for source in sources {
        let function = read_function::<4>(source);
        for abi in [X86_64Abi::Windows, X86_64Abi::SystemV] {
            let result =
                compile_x86_64_function::<_, 2048, 4, 160>(&function, &NoConstants, abi);
            assert!(result.is_ok(), "{source}: {result:?}");
        }
    }

    for (source, expected) in [
        (
            "#[unsafe(no_mangle)] pub extern \"C\" fn value(input: &[u16]) -> *mut u16 { input.as_mut_ptr() }",
            CodegenErrorKind::ImmutableAssignment,
        ),
        (
            "#[unsafe(no_mangle)] pub extern \"C\" fn value(input: *const u16) -> *mut u16 { input }",
            CodegenErrorKind::RuntimeTypeMismatch,
        ),
    ] {
        let function = read_function::<2>(source);
        assert_eq!(
            compile_x86_64_function::<_, 768, 2, 80>(
                &function,
                &NoConstants,
                X86_64Abi::Windows,
            )
            .unwrap_err()
            .kind,
            expected,
        );
    }
}

#[test]
fn dereferences_scalar_raw_pointers() {
    let sources = [
        "#[unsafe(no_mangle)] pub extern \"C\" fn value(input: *const u16) -> u16 { *input }",
        "#[unsafe(no_mangle)] pub extern \"C\" fn value(input: *mut u16) -> u16 { *input = 42; *input }",
        "#[unsafe(no_mangle)] pub extern \"C\" fn value(input: *mut i16) -> i16 { *input += 2; *input }",
    ];
    for source in sources {
        let function = read_function::<4>(source);
        for abi in [X86_64Abi::Windows, X86_64Abi::SystemV] {
            let result =
                compile_x86_64_function::<_, 2048, 4, 160>(&function, &NoConstants, abi);
            assert!(result.is_ok(), "{source}: {result:?}");
        }
    }

    let source =
        "#[unsafe(no_mangle)] pub extern \"C\" fn value(input: *const u16) { *input = 42; }";
    let function = read_function::<2>(source);
    assert_eq!(
        compile_x86_64_function::<_, 768, 2, 80>(&function, &NoConstants, X86_64Abi::Windows,)
            .unwrap_err()
            .kind,
        CodegenErrorKind::ImmutableAssignment,
    );
}

#[test]
fn preserves_typed_and_mutable_scalar_reference_pointers() {
    let sources = [
        "#[unsafe(no_mangle)] pub extern \"C\" fn value(input: &u64) -> u64 { let copied: &u64 = input; *copied }",
        "#[unsafe(no_mangle)] pub extern \"C\" fn value(input: &mut u64) -> u64 { let copied: &mut u64 = input; *copied }",
    ];
    for source in sources {
        let function = read_function::<4>(source);
        for abi in [X86_64Abi::Windows, X86_64Abi::SystemV] {
            let result = compile_x86_64_function::<_, 512, 4, 48>(&function, &NoConstants, abi);
            assert!(result.is_ok(), "{source}: {result:?}");
        }
    }
}

#[test]
fn mutates_scalar_reference_pointees() {
    let sources = [
        "#[unsafe(no_mangle)] pub extern \"C\" fn value(input: &mut u64) -> u64 { *input = 40; *input += 2; *input }",
        "#[unsafe(no_mangle)] pub extern \"C\" fn value(input: &mut i16) -> i16 { let copied: &mut i16 = input; *copied += 2; *copied }",
        "#[unsafe(no_mangle)] pub extern \"C\" fn value(input: &mut bool) -> bool { *input ^= true; *input }",
        "#[unsafe(no_mangle)] pub extern \"C\" fn value(input: &mut char) -> char { *input = 'z'; *input }",
    ];
    for source in sources {
        let function = read_function::<4>(source);
        for abi in [X86_64Abi::Windows, X86_64Abi::SystemV] {
            let result = compile_x86_64_function::<_, 512, 4, 48>(&function, &NoConstants, abi);
            assert!(result.is_ok(), "{source}: {result:?}");
        }
    }

    let function = read_function::<2>("#[unsafe(no_mangle)] pub extern \"C\" fn value(input: &u64) -> u64 { *input = 42; *input }");
    assert_eq!(
        compile_x86_64_function::<_, 256, 2, 32>(&function, &NoConstants, X86_64Abi::Windows,)
            .unwrap_err()
            .kind,
        CodegenErrorKind::ImmutableAssignment,
    );
}

#[test]
fn creates_and_reborrows_scalar_references() {
    let sources = [
        "#[unsafe(no_mangle)] pub extern \"C\" fn value(input: u64) -> u64 { let reference: &u64 = &input; *reference }",
        "#[unsafe(no_mangle)] pub extern \"C\" fn value(input: i16) -> i16 { let mut local = input; let reference: &mut i16 = &mut local; *reference += 2; local }",
        "#[unsafe(no_mangle)] pub extern \"C\" fn value(input: &mut u64) -> u64 { let reference: &mut u64 = &mut *input; *reference += 2; *input }",
        "#[unsafe(no_mangle)] pub extern \"C\" fn value(input: &u64) -> u64 { let reference: &u64 = &*input; *reference }",
    ];
    for source in sources {
        let function = read_function::<4>(source);
        for abi in [X86_64Abi::Windows, X86_64Abi::SystemV] {
            let result = compile_x86_64_function::<_, 512, 4, 48>(&function, &NoConstants, abi);
            assert!(result.is_ok(), "{source}: {result:?}");
        }
    }

    let function = read_function::<2>("#[unsafe(no_mangle)] pub extern \"C\" fn value(input: u64) -> u64 { let reference: &mut u64 = &mut input; *reference }");
    assert_eq!(
        compile_x86_64_function::<_, 256, 2, 32>(&function, &NoConstants, X86_64Abi::Windows,)
            .unwrap_err()
            .kind,
        CodegenErrorKind::ImmutableAssignment,
    );
}

#[test]
fn indexes_and_mutates_fixed_array_references() {
    let sources = [
        "#[unsafe(no_mangle)] pub extern \"C\" fn value(values: &[usize; 4], index: usize) -> usize { let copied: &[usize; 4] = values; copied[index] + copied[0] }",
        "#[unsafe(no_mangle)] pub extern \"C\" fn value(values: &mut [usize; 4], index: usize) -> usize { let copied: &mut [usize; 4] = &mut *values; copied[index] += 2; values[index] }",
        "#[unsafe(no_mangle)] pub extern \"C\" fn value(values: &mut [i16; 3]) -> i16 { values[1] = -12; values[1] }",
        "#[unsafe(no_mangle)] pub extern \"C\" fn value(values: &mut [bool; 3]) -> bool { values[2] ^= true; values[2] }",
        "#[unsafe(no_mangle)] pub extern \"C\" fn value(values: &mut [char; 2]) -> char { values[1] = 'z'; values[1] }",
    ];
    for source in sources {
        let function = read_function::<4>(source);
        for abi in [X86_64Abi::Windows, X86_64Abi::SystemV] {
            let result = compile_x86_64_function::<_, 768, 4, 64>(&function, &NoConstants, abi);
            assert!(result.is_ok(), "{source}: {result:?}");
        }
    }

    let function = read_function::<2>("#[unsafe(no_mangle)] pub extern \"C\" fn value(values: &[u64; 2]) -> u64 { values[0] = 42; values[0] }");
    assert_eq!(
        compile_x86_64_function::<_, 256, 2, 32>(&function, &NoConstants, X86_64Abi::Windows,)
            .unwrap_err()
            .kind,
        CodegenErrorKind::ImmutableAssignment,
    );
}

#[test]
fn takes_references_to_expanded_fixed_array_locals() {
    let sources = [
        "#[unsafe(no_mangle)] pub extern \"C\" fn value(input: usize, index: usize) -> usize { let values = [input, 10, 20, 30]; let reference: &[usize; 4] = &values; reference[index] + reference[0] }",
        "#[unsafe(no_mangle)] pub extern \"C\" fn value(input: usize, index: usize) -> usize { let mut values = [input, 10, 20, 30]; let reference: &mut [usize; 4] = &mut values; let copied: &mut [usize; 4] = &mut *reference; copied[index] += 2; copied[index] }",
        "#[unsafe(no_mangle)] pub extern \"C\" fn value(input: i16) -> i16 { let mut values = [input, 0, 0]; let reference: &mut [i16; 3] = &mut values; reference[1] = -12; reference[1] }",
        "#[unsafe(no_mangle)] pub extern \"C\" fn value(input: bool) -> bool { let mut values = [input, false, true]; let reference: &mut [bool; 3] = &mut values; reference[1] ^= true; reference[1] }",
        "#[unsafe(no_mangle)] pub extern \"C\" fn value(input: char) -> char { let mut values = [input, 'a']; let reference: &mut [char; 2] = &mut values; reference[1] = 'z'; reference[1] }",
    ];
    for source in sources {
        let function = read_function::<8>(source);
        for abi in [X86_64Abi::Windows, X86_64Abi::SystemV] {
            let result =
                compile_x86_64_function::<_, 1024, 8, 96>(&function, &NoConstants, abi);
            assert!(result.is_ok(), "{source}: {result:?}");
        }
    }
}

#[test]
fn indexes_and_mutates_slice_references() {
    let sources = [
        "#[unsafe(no_mangle)] pub extern \"C\" fn value(values: &[usize], index: usize) -> usize { let copied: &[usize] = values; copied[index] + copied[0] }",
        "#[unsafe(no_mangle)] pub extern \"C\" fn value(values: &mut [usize], index: usize) -> usize { let copied: &mut [usize] = &mut *values; copied[index] += 2; values[index] }",
        "#[unsafe(no_mangle)] pub extern \"C\" fn value(values: &[usize]) -> usize { values.len() }",
        "#[unsafe(no_mangle)] pub extern \"C\" fn value(values: &mut [usize]) -> usize { let copied: &mut [usize] = &mut *values; copied.len() + values.len() }",
        "#[unsafe(no_mangle)] pub extern \"C\" fn value(values: &[usize]) -> bool { values.is_empty() }",
        "#[unsafe(no_mangle)] pub extern \"C\" fn value(values: &mut [usize]) -> bool { let copied: &mut [usize] = &mut *values; copied.is_empty() || values.is_empty() }",
        "#[unsafe(no_mangle)] pub extern \"C\" fn value(values: &mut [i16]) -> i16 { values[1] = -12; values[1] }",
        "#[unsafe(no_mangle)] pub extern \"C\" fn value(values: &mut [bool]) -> bool { values[2] ^= true; values[2] }",
        "#[unsafe(no_mangle)] pub extern \"C\" fn value(values: &mut [char]) -> char { values[1] = 'z'; values[1] }",
    ];
    for source in sources {
        let function = read_function::<4>(source);
        for abi in [X86_64Abi::Windows, X86_64Abi::SystemV] {
            let result =
                compile_x86_64_function::<_, 1024, 4, 96>(&function, &NoConstants, abi);
            assert!(result.is_ok(), "{source}: {result:?}");
        }
    }

    let function = read_function::<2>("#[unsafe(no_mangle)] pub extern \"C\" fn value(values: &[u64]) -> u64 { values[0] = 42; values[0] }");
    assert_eq!(
        compile_x86_64_function::<_, 384, 2, 48>(&function, &NoConstants, X86_64Abi::Windows,)
            .unwrap_err()
            .kind,
        CodegenErrorKind::ImmutableAssignment,
    );
}

#[test]
fn creates_slices_from_fixed_array_reference_ranges() {
    let sources = [
        "#[unsafe(no_mangle)] pub extern \"C\" fn value(values: &[usize; 4]) -> usize { let slice: &[usize] = &values[1..3]; slice.len() + slice[0] + slice[1] }",
        "#[unsafe(no_mangle)] pub extern \"C\" fn value(values: &mut [usize; 4]) -> usize { let slice: &mut [usize] = &mut values[1..=2]; slice[1] += 2; values[2] }",
        "#[unsafe(no_mangle)] pub extern \"C\" fn value(values: &[usize; 4]) -> usize { let slice: &[usize] = &values[..2]; slice.len() + slice[1] }",
        "#[unsafe(no_mangle)] pub extern \"C\" fn value(values: &[usize; 4]) -> usize { let slice: &[usize] = &values[2..]; slice.len() + slice[0] }",
        "#[unsafe(no_mangle)] pub extern \"C\" fn value(values: &[usize; 4]) -> usize { let slice: &[usize] = &values[..]; slice.len() + slice[3] }",
    ];
    for source in sources {
        let function = read_function::<4>(source);
        for abi in [X86_64Abi::Windows, X86_64Abi::SystemV] {
            let result =
                compile_x86_64_function::<_, 1024, 4, 128>(&function, &NoConstants, abi);
            assert!(result.is_ok(), "{source}: {result:?}");
        }
    }

    for source in [
        "#[unsafe(no_mangle)] pub extern \"C\" fn value(values: &[usize; 4]) -> usize { let slice: &[usize] = &values[3..2]; slice.len() }",
        "#[unsafe(no_mangle)] pub extern \"C\" fn value(values: &[usize; 4]) -> usize { let slice: &[usize] = &values[..5]; slice.len() }",
    ] {
        let function = read_function::<4>(source);
        assert_eq!(
            compile_x86_64_function::<_, 512, 4, 96>(
                &function,
                &NoConstants,
                X86_64Abi::Windows,
            )
            .unwrap_err()
            .kind,
            CodegenErrorKind::ValueOutOfRange,
        );
    }

    let function = read_function::<4>("#[unsafe(no_mangle)] pub extern \"C\" fn value(values: &[usize; 4]) -> usize { let slice: &mut [usize] = &mut values[1..3]; slice.len() }");
    assert_eq!(
        compile_x86_64_function::<_, 512, 4, 96>(&function, &NoConstants, X86_64Abi::Windows,)
            .unwrap_err()
            .kind,
        CodegenErrorKind::ImmutableAssignment,
    );
}

#[test]
fn creates_slices_from_runtime_fixed_array_ranges() {
    let sources = [
        "#[unsafe(no_mangle)] pub extern \"C\" fn value(values: &mut [usize; 4], start: usize, end: usize) -> usize { let slice: &mut [usize] = &mut values[start..end]; slice[0] += 2; slice.len() + slice[0] }",
        "#[unsafe(no_mangle)] pub extern \"C\" fn value(values: &[usize; 4], start: usize, end: usize) -> usize { let slice: &[usize] = &values[start..=end]; slice.len() + slice[0] }",
        "#[unsafe(no_mangle)] pub extern \"C\" fn value(values: &[usize; 4], end: usize) -> usize { let slice: &[usize] = &values[..end]; slice.len() + slice[0] }",
        "#[unsafe(no_mangle)] pub extern \"C\" fn value(values: &[usize; 4], start: usize) -> usize { let slice: &[usize] = &values[start..]; slice.len() + slice[0] }",
    ];
    for source in sources {
        let function = read_function::<4>(source);
        for abi in [X86_64Abi::Windows, X86_64Abi::SystemV] {
            let result =
                compile_x86_64_function::<_, 1536, 4, 128>(&function, &NoConstants, abi);
            assert!(result.is_ok(), "{source}: {result:?}");
        }
    }
}

#[test]
fn creates_subslices_from_slice_ranges() {
    let sources = [
        "#[unsafe(no_mangle)] pub extern \"C\" fn value(values: &mut [u16], start: usize, end: usize) -> u16 { let slice: &mut [u16] = &mut values[start..end]; slice[0] += 2; slice[0] + slice[1] }",
        "#[unsafe(no_mangle)] pub extern \"C\" fn value(values: &[usize], start: usize, end: usize) -> usize { let slice: &[usize] = &values[start..=end]; slice.len() + slice[0] }",
        "#[unsafe(no_mangle)] pub extern \"C\" fn value(values: &[usize], end: usize) -> usize { let slice: &[usize] = &values[..end]; slice.len() + slice[0] }",
        "#[unsafe(no_mangle)] pub extern \"C\" fn value(values: &[usize], start: usize) -> usize { let slice: &[usize] = &values[start..]; slice.len() + slice[0] }",
        "#[unsafe(no_mangle)] pub extern \"C\" fn value(values: &[usize]) -> usize { let slice: &[usize] = &values[..]; slice.len() + slice[0] }",
    ];
    for source in sources {
        let function = read_function::<4>(source);
        for abi in [X86_64Abi::Windows, X86_64Abi::SystemV] {
            let result =
                compile_x86_64_function::<_, 2048, 4, 160>(&function, &NoConstants, abi);
            assert!(result.is_ok(), "{source}: {result:?}");
        }
    }
}

#[test]
fn creates_slices_from_contiguous_fixed_array_locals() {
    let sources = [
        "#[unsafe(no_mangle)] pub extern \"C\" fn value(input: usize, start: usize, end: usize) -> usize { let values = [input, 10, 20, 30]; let slice: &[usize] = &values[start..end]; slice.len() + slice[0] + values[2] }",
        "#[unsafe(no_mangle)] pub extern \"C\" fn value(input: usize, start: usize, end: usize) -> usize { let mut values = [input, 10, 20, 30]; let slice: &mut [usize] = &mut values[start..=end]; slice[1] += 2; values[2] + slice.len() }",
        "#[unsafe(no_mangle)] pub extern \"C\" fn value(input: i64) -> i64 { let values = [input, 10, 20, 30]; let slice: &[i64] = &values[1..3]; slice[0] + slice[1] }",
    ];
    for source in sources {
        let function = read_function::<8>(source);
        for abi in [X86_64Abi::Windows, X86_64Abi::SystemV] {
            let result =
                compile_x86_64_function::<_, 2048, 8, 160>(&function, &NoConstants, abi);
            assert!(result.is_ok(), "{source}: {result:?}");
        }
    }
}

#[test]
fn creates_slices_from_packed_fixed_array_locals() {
    let sources = [
        "#[unsafe(no_mangle)] pub extern \"C\" fn value(input: u8) -> u8 { let mut values = [input, 10, 20, 30]; let slice: &mut [u8] = &mut values[1..=2]; slice[1] += 2; values[2] + slice[0] }",
        "#[unsafe(no_mangle)] pub extern \"C\" fn value(input: u16) -> u16 { let mut values = [input, 1000, 2000, 3000, 4000]; let slice: &mut [u16] = &mut values[1..4]; slice[1] += 2; values[2] + slice[0] }",
        "#[unsafe(no_mangle)] pub extern \"C\" fn value(input: u32) -> u32 { let mut values = [input, 100000, 200000]; values = [input, values[1], values[2]]; let slice: &[u32] = &values[..2]; slice[0] + slice[1] }",
        "#[unsafe(no_mangle)] pub extern \"C\" fn value(input: bool) -> bool { let mut values = [input, false, true]; let slice: &mut [bool] = &mut values[1..]; slice[0] ^= true; values[1] && slice[1] }",
        "#[unsafe(no_mangle)] pub extern \"C\" fn value(input: char) -> char { let mut values = [input, 'x', 'y']; let slice: &mut [char] = &mut values[1..3]; slice[0] = 'z'; values[1] }",
        "#[unsafe(no_mangle)] pub extern \"C\" fn value(start: usize, end: usize) -> u8 { let mut values = [7u8, 10, 20, 30]; let slice: &mut [u8] = &mut values[start..end]; slice[0] += 2; values[start] + slice[1] }",
        "#[unsafe(no_mangle)] pub extern \"C\" fn value(start: usize) -> u8 { let end: usize = start + 2; let mut values = [7u8, 10, 20, 30]; let slice: &mut [u8] = &mut values[start..end]; slice[0] += 2; values[start] + slice[1] }",
        "#[unsafe(no_mangle)] pub extern \"C\" fn value(start: usize) -> u8 { let end = start + 2; if end == 3 { 42u8 } else { 1 } }",
        "#[unsafe(no_mangle)] pub extern \"C\" fn value(start: usize) -> u8 { let end: usize = start + 2; if end == 3 { 42u8 } else { 1 } }",
    ];
    for source in sources {
        let function = read_function::<8>(source);
        for abi in [X86_64Abi::Windows, X86_64Abi::SystemV] {
            let result =
                compile_x86_64_function::<_, 3072, 8, 192>(&function, &NoConstants, abi);
            assert!(result.is_ok(), "{source}: {result:?}");
        }
    }
}

#[test]
fn keeps_auxiliary_usize_parameters_out_of_narrow_arithmetic() {
    let source = "#[unsafe(no_mangle)] pub extern \"C\" fn value(input: u8, index: usize) -> u8 { input + index }";
    let function = read_function::<2>(source);
    assert_eq!(
        compile_x86_64_function::<_, 512, 2, 64>(&function, &NoConstants, X86_64Abi::Windows,)
            .unwrap_err()
            .kind,
        CodegenErrorKind::RuntimeTypeMismatch,
    );
}

#[test]
fn supports_independent_scalar_integer_widths() {
    let sources = [
        "#[unsafe(no_mangle)] pub extern \"C\" fn value(input: u8, wide: u64, signed: i16) -> u8 { let adjusted = wide + 2; let negative: i16 = signed + 2; if adjusted == 258 && negative == -1 { input + 1 } else { input } }",
        "#[unsafe(no_mangle)] pub extern \"C\" fn value(input: u8) -> u8 { let wide: u64 = 256; let signed: i16 = -3; if wide + 2 == 258 && signed + 2 == -1 { input + 1 } else { input } }",
        "#[unsafe(no_mangle)] pub extern \"C\" fn value(input: u8) -> u8 { let values: [u16; 3] = [256, 257, 258]; if values[1] == 257 { input + 1 } else { input } }",
        "#[unsafe(no_mangle)] pub extern \"C\" fn value(input: u8) -> u8 { let mut wide: u64 = 256; wide += 2; let mut signed: i16 = -3; signed += 2; let mut values: [u16; 3] = [256, 257, 258]; values[1] += 1; if wide == 258 && signed == -1 && values[1] == 258 { input + 1 } else { input } }",
    ];
    for source in sources {
        let function = read_function::<4>(source);
        for abi in [X86_64Abi::Windows, X86_64Abi::SystemV] {
            let result =
                compile_x86_64_function::<_, 1536, 4, 128>(&function, &NoConstants, abi);
            assert!(result.is_ok(), "{source}: {result:?}");
        }
    }
}

#[test]
fn supports_independent_aggregate_parameter_widths() {
    let sources = [
        "#[unsafe(no_mangle)] pub extern \"C\" fn value(input: u8, values: [u16; 3]) -> u8 { if values[1] == 257 { input + 1 } else { input } }",
        "#[unsafe(no_mangle)] pub extern \"C\" fn value(input: u8, values: &[u16; 3], slice: &[i32]) -> u8 { if values[1] == 257 && slice[0] == -3 { input + 1 } else { input } }",
        "#[unsafe(no_mangle)] pub extern \"C\" fn value(input: u8, flag: &bool, character: &char) -> u8 { if *flag && *character == 'z' { input + 1 } else { input } }",
        "#[unsafe(no_mangle)] pub extern \"C\" fn value(input: u8, wide: &mut u64, values: &mut [u16; 3], slice: &mut [i16]) -> u8 { *wide += 2; values[1] += 1; slice[0] += 2; if *wide == 258 && values[1] == 258 && slice[0] == -1 { input + 1 } else { input } }",
    ];
    for source in sources {
        let function = read_function::<4>(source);
        for abi in [X86_64Abi::Windows, X86_64Abi::SystemV] {
            let result =
                compile_x86_64_function::<_, 1536, 4, 128>(&function, &NoConstants, abi);
            assert!(result.is_ok(), "{source}: {result:?}");
        }
    }
}

#[test]
fn returns_fixed_arrays_through_x86_64_abi_classes() {
    let sources = [
        "#[unsafe(no_mangle)] pub extern \"C\" fn value(input: u64) -> [u64; 1] { [input + 1] }",
        "#[unsafe(no_mangle)] pub extern \"C\" fn value(input: bool) -> [bool; 1] { [input] }",
        "#[unsafe(no_mangle)] pub extern \"C\" fn value(input: char) -> [char; 1] { [input] }",
        "#[unsafe(no_mangle)] pub extern \"C\" fn value(input: u64) -> [u64; 2] { [input, input + 1] }",
        "#[unsafe(no_mangle)] pub extern \"C\" fn value(input: u64, after: u64) -> [u64; 3] { [input, 42, after] }",
        "#[unsafe(no_mangle)] pub extern \"C\" fn value(input: u64) -> [u64; 3] { let values = [input, input + 1, input + 2]; return values; }",
        "#[unsafe(no_mangle)] pub extern \"C\" fn value(select: bool) -> [u64; 3] { if select { return [13u64, 42, 99]; } [1, 2, 3] }",
        "#[unsafe(no_mangle)] pub extern \"C\" fn value(select: bool) -> [u64; 2] { if select { return [13u64, 42]; } else { return [1, 2]; } }",
        "#[unsafe(no_mangle)] pub extern \"C\" fn value(input: u8) -> [u8; 4] { [input, input + 1, input + 2, input + 3] }",
        "#[unsafe(no_mangle)] pub extern \"C\" fn value(input: u16) -> [u16; 5] { [input, 1, 2, 3, input + 4] }",
        "#[unsafe(no_mangle)] pub extern \"C\" fn value(input: u32) -> [u32; 2] { [input, input + 1] }",
        "#[unsafe(no_mangle)] pub extern \"C\" fn value(input: i16) -> [i16; 3] { [input, -2, input + 1] }",
        "#[unsafe(no_mangle)] pub extern \"C\" fn value(input: char) -> [char; 2] { [input, 'z'] }",
        "#[unsafe(no_mangle)] pub extern \"C\" fn value(input: bool) -> [bool; 3] { [input, false, true] }",
        "#[unsafe(no_mangle)] pub extern \"C\" fn value(input: u8) -> [u8; 0] { [] }",
        "#[unsafe(no_mangle)] pub extern \"C\" fn value(input: u8) -> [(); 3] { [(); 3] }",
        "#[unsafe(no_mangle)] pub extern \"C\" fn value(input: u16) -> [u16; 5] { if input == 0 { Default::default() } else { [input, 0, 0, 0, input] } }",
    ];
    for source in sources {
        let function = read_function::<4>(source);
        for abi in [X86_64Abi::Windows, X86_64Abi::SystemV] {
            let result = compile_x86_64_function::<_, 768, 4, 64>(&function, &NoConstants, abi);
            assert!(result.is_ok(), "{source}: {result:?}");
        }
    }
}

#[test]
fn supports_sixteen_element_fixed_arrays() {
    let sources = [
        "#[unsafe(no_mangle)] pub extern \"C\" fn value(values: [u8; 16]) -> [u8; 16] { let mut copied = values; copied[15] += 1; copied }",
        "#[unsafe(no_mangle)] pub extern \"C\" fn value(input: u64) -> u64 { let mut values = [input; 16]; values[15] += 1; values[15] }",
    ];
    for source in sources {
        let function = read_function::<4>(source);
        for abi in [X86_64Abi::Windows, X86_64Abi::SystemV] {
            let result =
                compile_x86_64_function::<_, 4096, 4, 96>(&function, &NoConstants, abi);
            assert!(result.is_ok(), "{source}: {result:?}");
        }
    }
}

#[test]
fn emits_unit_returning_functions() {
    let sources = [
        "#[unsafe(no_mangle)] pub extern \"C\" fn unit() -> () { () }",
        "#[unsafe(no_mangle)] pub extern \"C\" fn implicit_unit() {}",
        "#[unsafe(no_mangle)] pub extern \"C\" fn early_unit(value: u64) { let adjusted = value + 1; return; let unreachable = adjusted + 1; unreachable; }",
        "#[unsafe(no_mangle)] pub extern \"C\" fn conditional_unit(stop: bool) { if stop { return; } () }",
        "#[unsafe(no_mangle)] pub extern \"C\" fn loop_return_unit(stop: bool) { loop { if stop { return; } } }",
        "#[unsafe(no_mangle)] pub extern \"C\" fn loop_unit() -> () { loop { break; } }",
        "#[unsafe(no_mangle)] pub extern \"C\" fn loop_value_unit() -> () { let value: () = loop { break (); }; value }",
    ];
    for source in sources {
        let function = read_function::<4>(source);
        for abi in [X86_64Abi::Windows, X86_64Abi::SystemV] {
            assert!(
                compile_x86_64_function::<_, 512, 4, 32>(&function, &NoConstants, abi,).is_ok()
            );
        }
    }

    let function = read_function::<4>("#[unsafe(no_mangle)] pub extern \"C\" fn bad() -> () { 42 }");
    assert_eq!(
        compile_x86_64_function::<_, 512, 4, 32>(&function, &NoConstants, X86_64Abi::Windows,)
            .unwrap_err()
            .kind,
        CodegenErrorKind::RuntimeTypeMismatch
    );

    let function = read_function::<4>("#[unsafe(no_mangle)] pub extern \"C\" fn bad() -> u64 { return; }");
    let body = function.body.as_ref().unwrap();
    assert!(matches!(
        body.statements[0],
        BodyStatement::Return(LoopReturn { value: "()", .. })
    ));
    assert!(body.tail_diverges);
    assert_eq!(
        compile_x86_64_function::<_, 512, 4, 32>(&function, &NoConstants, X86_64Abi::Windows,)
            .unwrap_err()
            .kind,
        CodegenErrorKind::RuntimeTypeMismatch
    );
}

#[test]
fn emits_boolean_and_unit_comparisons_and_boolean_bitwise_ops() {
    let sources = [
        "#[unsafe(no_mangle)] pub extern \"C\" fn equal(left: bool, right: bool) -> bool { left == right }",
        "#[unsafe(no_mangle)] pub extern \"C\" fn different(left: bool, right: bool) -> bool { left != right }",
        "#[unsafe(no_mangle)] pub extern \"C\" fn unit_equal() -> bool { () == () }",
        "#[unsafe(no_mangle)] pub extern \"C\" fn ordered(left: bool, right: bool) -> bool { left < right }",
        "#[unsafe(no_mangle)] pub extern \"C\" fn unit_ordered() -> bool { () <= () }",
        "#[unsafe(no_mangle)] pub extern \"C\" fn bitwise(left: bool, right: bool) -> bool { (left & right) | (left ^ right) }",
    ];
    for source in sources {
        let function = read_function::<4>(source);
        for abi in [X86_64Abi::Windows, X86_64Abi::SystemV] {
            assert!(
                compile_x86_64_function::<_, 512, 4, 32>(&function, &NoConstants, abi,).is_ok()
            );
        }
    }

    let function = read_function::<4>("#[unsafe(no_mangle)] pub extern \"C\" fn bad(left: bool) -> bool { left == 1 }");
    assert_eq!(
        compile_x86_64_function::<_, 512, 4, 32>(&function, &NoConstants, X86_64Abi::Windows,)
            .unwrap_err()
            .kind,
        CodegenErrorKind::RuntimeTypeMismatch
    );
}

#[test]
fn emits_boolean_compound_assignments() {
    let sources = [
        "#[unsafe(no_mangle)] pub extern \"C\" fn mutate(left: bool, right: bool) -> bool { let mut value: bool = left; value &= right; value ^= true; value |= left; value }",
        "#[unsafe(no_mangle)] pub extern \"C\" fn parity(limit: u64) -> bool { let mut i: u64 = 0; let mut value: bool = false; while i < limit { value ^= true; i += 1; } value }",
    ];
    for source in sources {
        let function = read_function::<4>(source);
        for abi in [X86_64Abi::Windows, X86_64Abi::SystemV] {
            assert!(
                compile_x86_64_function::<_, 768, 4, 64>(&function, &NoConstants, abi,).is_ok()
            );
        }
    }

    let function = read_function::<4>("#[unsafe(no_mangle)] pub extern \"C\" fn bad() -> bool { let mut value: bool = false; value += true; value }");
    assert_eq!(
        compile_x86_64_function::<_, 512, 4, 32>(&function, &NoConstants, X86_64Abi::Windows,)
            .unwrap_err()
            .kind,
        CodegenErrorKind::RuntimeTypeMismatch
    );
}

/// The kind of the error that compiling a function for System V gives.
fn refusal(source: &str) -> CodegenErrorKind {
    let constants = Constants(&[
        ("LOW", 5, IntegerType::U8),
        ("HIGH", 2, IntegerType::U8),
    ]);
    let function = read_function::<4>(source);
    compile_x86_64_function::<_, 512, 4, 64>(&function, &constants, X86_64Abi::SystemV)
        .unwrap_err()
        .kind
}

#[test]
fn refuses_types_that_it_does_not_know() {
    assert_eq!(
        refusal("#[unsafe(no_mangle)] pub extern \"C\" fn f(value: Thing) -> u64 { 1 }"),
        CodegenErrorKind::UnsupportedParameterType
    );
    assert_eq!(
        refusal("#[unsafe(no_mangle)] pub extern \"C\" fn f(value: u128) -> u64 { 1 }"),
        CodegenErrorKind::UnsupportedParameterType
    );
    assert_eq!(
        refusal("#[unsafe(no_mangle)] pub extern \"C\" fn f(value: u64) -> u64 { let wide: Thing = 1; value }"),
        CodegenErrorKind::UnsupportedRuntimeType
    );
    assert_eq!(
        refusal("#[unsafe(no_mangle)] pub extern \"C\" fn f(value: u64) -> Thing { value }"),
        CodegenErrorKind::UnsupportedReturnType
    );
}

#[test]
fn checks_the_range_patterns_of_a_match() {
    assert_eq!(
        refusal("#[unsafe(no_mangle)] pub extern \"C\" fn f(value: u8) -> u8 { match value { 0..=300 => 1, _ => 2 } }"),
        CodegenErrorKind::RangeEndpointOutOfRange
    );
    assert_eq!(
        refusal("#[unsafe(no_mangle)] pub extern \"C\" fn f(value: u8) -> u8 { match value { LOW..=HIGH => 1, _ => 2 } }"),
        CodegenErrorKind::InvalidRangeBounds
    );
    assert_eq!(
        refusal("#[unsafe(no_mangle)] pub extern \"C\" fn f(value: u8) -> u8 { match value { 1..='z' => 1, _ => 2 } }"),
        CodegenErrorKind::InvalidRangeType
    );
}

#[test]
fn refuses_expressions_without_code() {
    assert_eq!(
        refusal("#[unsafe(no_mangle)] pub extern \"C\" fn f(value: u64) -> u64 { missing(value) }"),
        CodegenErrorKind::RuntimeExpressionUnsupported
    );
    assert_eq!(
        refusal("#[unsafe(no_mangle)] pub extern \"C\" fn f(value: u64) -> u64 { missing }"),
        CodegenErrorKind::UnknownRuntimeName
    );
    assert_eq!(
        refusal("#[unsafe(no_mangle)] pub extern \"C\" fn f(value: u64) -> u64 { value += 1 }"),
        CodegenErrorKind::Expression(ExpressionErrorKind::TrailingToken)
    );
}

#[test]
fn constant_functions_need_an_integer_result() {
    let function = read_function::<4>("#[unsafe(no_mangle)] pub extern \"C\" fn f() { 1 }");
    assert_eq!(
        compile_x86_64_constant_function::<_, 16, 4, 16>(&function, &NoConstants)
            .unwrap_err()
            .kind,
        CodegenErrorKind::MissingReturnType
    );
    let function =
        read_function::<4>("#[unsafe(no_mangle)] pub extern \"C\" fn f() -> bool { true }");
    assert_eq!(
        compile_x86_64_constant_function::<_, 16, 4, 16>(&function, &NoConstants)
            .unwrap_err()
            .kind,
        CodegenErrorKind::UnsupportedReturnType
    );
}

#[test]
fn constant_functions_say_why_there_is_no_value() {
    let function =
        read_function::<4>("#[unsafe(no_mangle)] pub extern \"C\" fn f() -> u64 { 1 / 0 }");
    assert_eq!(
        compile_x86_64_constant_function::<_, 16, 4, 16>(&function, &NoConstants)
            .unwrap_err()
            .kind,
        CodegenErrorKind::Execution(ExecutionError::Arithmetic(ConstEvalError::DivisionByZero))
    );
    let eight = "(((1 + 1) + (1 + 1)) + ((1 + 1) + (1 + 1)))";
    let many = format!("(({eight} + {eight}) + ({eight} + {eight}))");
    let all = format!("({many} + {many}) + ({many} + {many}) + {many}");
    let source = format!("#[unsafe(no_mangle)] pub extern \"C\" fn f() -> u64 {{ {all} }}");
    let function = read_function::<4>(&source);
    assert_eq!(
        compile_x86_64_constant_function::<_, 16, 4, 1024>(&function, &NoConstants)
            .unwrap_err()
            .kind,
        CodegenErrorKind::Lowering(IrErrorKind::TooManyInstructions)
    );
}

#[test]
fn a_body_that_cannot_be_read_is_reported_where_it_stands() {
    let mut function =
        read_function::<4>("#[unsafe(no_mangle)] pub extern \"C\" fn f() -> u64 { 42 }");
    let start = function.body_expression_span.start;
    function.body = Err(ParseError {
        kind: ParseErrorKind::ExpectedSemicolon,
        span: Span { start: 3, end: 5 },
    });
    let expected = CodegenError {
        kind: CodegenErrorKind::Body(ParseErrorKind::ExpectedSemicolon),
        span: Span { start: start + 3, end: start + 5 },
    };
    assert_eq!(
        compile_x86_64_constant_function::<_, 16, 4, 16>(&function, &NoConstants).unwrap_err(),
        expected
    );
    assert_eq!(
        compile_x86_64_function::<_, 16, 4, 16>(&function, &NoConstants, X86_64Abi::Windows)
            .unwrap_err(),
        expected
    );
}

#[test]
fn adds_two_parameters_byte_by_byte() {
    let function = read_function::<4>(
        "#[unsafe(no_mangle)] pub extern \"C\" fn f(a: u64, b: u64) -> u64 { a + b }",
    );
    let checked =
        compile_x86_64_function::<_, 64, 4, 16>(&function, &NoConstants, X86_64Abi::SystemV)
            .unwrap();
    assert_eq!(
        checked.bytes(),
        &[
            0x57, 0x56, 0x48, 0x8b, 0x44, 0x24, 8, 0x50, 0x48, 0x8b, 0x44, 0x24, 8, 0x59, 0x48,
            0x01, 0xc8, 0x0f, 0x82, 5, 0, 0, 0, 0x48, 0x83, 0xc4, 16, 0xc3, 0x0f, 0x0b
        ]
    );
    let wrapping = compile_x86_64_function_with_options::<_, 64, 4, 16>(
        &function,
        &NoConstants,
        X86_64Abi::Windows,
        CodegenOptions::wrapping(),
    )
    .unwrap();
    assert_eq!(
        wrapping.bytes(),
        &[
            0x51, 0x52, 0x48, 0x8b, 0x44, 0x24, 8, 0x50, 0x48, 0x8b, 0x44, 0x24, 8, 0x59, 0x48,
            0x01, 0xc8, 0x48, 0x83, 0xc4, 16, 0xc3
        ]
    );
}

#[test]
fn every_branch_to_the_trap_reaches_it() {
    let function = read_function::<4>(
        "#[unsafe(no_mangle)] pub extern \"C\" fn f(a: u64, b: u64) -> u64 { a + b + a * b }",
    );
    for abi in [X86_64Abi::Windows, X86_64Abi::SystemV] {
        let code = compile_x86_64_function::<_, 256, 4, 16>(&function, &NoConstants, abi).unwrap();
        let bytes = code.bytes();
        let trap = code.len() - 2;
        assert_eq!(&bytes[trap..], &[0x0f, 0x0b]);
        let mut branches = 0;
        for at in 0..trap - 5 {
            if bytes[at] == 0x0f && bytes[at + 1] & 0xf0 == 0x80 {
                let distance = i32::from_le_bytes([
                    bytes[at + 2],
                    bytes[at + 3],
                    bytes[at + 4],
                    bytes[at + 5],
                ]);
                assert_eq!(at + 6 + distance as usize, trap);
                branches += 1;
            }
        }
        assert_eq!(branches, 3);
    }
}

#[test]
fn code_is_refused_below_its_length_and_the_same_above_it() {
    let function = read_function::<4>(
        "#[unsafe(no_mangle)] pub extern \"C\" fn f(a: u64, b: u64) -> u64 { a + b }",
    );
    let exact =
        compile_x86_64_function::<_, 30, 4, 16>(&function, &NoConstants, X86_64Abi::SystemV)
            .unwrap();
    let roomy =
        compile_x86_64_function::<_, 300, 4, 16>(&function, &NoConstants, X86_64Abi::SystemV)
            .unwrap();
    assert_eq!(exact.bytes(), roomy.bytes());
    assert_eq!(exact.len(), 30);
    assert!(!exact.is_empty());
    let tight =
        compile_x86_64_function::<_, 29, 4, 16>(&function, &NoConstants, X86_64Abi::SystemV)
            .unwrap_err();
    assert_eq!(tight.kind, CodegenErrorKind::OutputTooSmall);
}

#[test]
fn constant_code_is_the_same_for_each_convention() {
    let function = read_function::<4>(
        "#[unsafe(no_mangle)] pub extern \"C\" fn f() -> i16 { let x: i16 = 300; x - 301i16 + 1 }",
    );
    let first =
        compile_x86_64_function::<_, 16, 4, 16>(&function, &NoConstants, X86_64Abi::Windows);
    let second = compile_x86_64_function_with_options::<_, 16, 4, 16>(
        &function,
        &NoConstants,
        X86_64Abi::SystemV,
        CodegenOptions::wrapping(),
    );
    assert_eq!(first, second);
    let function =
        read_function::<4>("#[unsafe(no_mangle)] pub extern \"C\" fn f() -> u64 { 3 * 7 << 33 }");
    let code =
        compile_x86_64_function::<_, 11, 4, 16>(&function, &NoConstants, X86_64Abi::Windows)
            .unwrap();
    let mut immediate = [0u8; 8];
    immediate.copy_from_slice(&code.bytes()[2..10]);
    assert_eq!(u64::from_le_bytes(immediate), 21 << 33);
}

#[test]
fn names_that_nobody_can_call_are_refused_before_anything_else() {
    let mut function =
        read_function::<4>("#[unsafe(no_mangle)] pub extern \"C\" fn f(a: u64) -> u64 { a }");
    function.no_mangle = false;
    let error = compile_x86_64_function::<_, 4, 4, 16>(&function, &NoConstants, X86_64Abi::Windows)
        .unwrap_err();
    assert_eq!(error.kind, CodegenErrorKind::StableExportRequired);
    assert_eq!(error.span, function.name_span);
}

#[test]
fn overflow_checks_change_the_code_only() {
    for (source, accepted) in [
        ("#[unsafe(no_mangle)] pub extern \"C\" fn f(a: u8, b: u8) -> u8 { a * b + (a << b) }", true),
        ("#[unsafe(no_mangle)] pub extern \"C\" fn f(a: i16) -> i16 { -a - 1 }", true),
        ("#[unsafe(no_mangle)] pub extern \"C\" fn f(a: u8) -> u8 { a + missing }", false),
        ("#[unsafe(no_mangle)] pub extern \"C\" fn f(a: u8) -> u8 { -a }", false),
    ] {
        let function = read_function::<4>(source);
        let checked = compile_x86_64_function_with_options::<_, 512, 4, 32>(
            &function,
            &NoConstants,
            X86_64Abi::SystemV,
            CodegenOptions::checked(),
        );
        let wrapping = compile_x86_64_function_with_options::<_, 512, 4, 32>(
            &function,
            &NoConstants,
            X86_64Abi::SystemV,
            CodegenOptions::wrapping(),
        );
        assert_eq!(checked.is_ok(), accepted, "{source}");
        match (checked, wrapping) {
            (Ok(checked), Ok(wrapping)) => assert_ne!(checked.bytes(), wrapping.bytes()),
            (Err(first), Err(second)) => assert_eq!(first, second),
            _ => panic!("expected the same answer"),
        }
    }
}

#[test]
fn code_is_empty_only_for_a_body_without_anything() {
    let mut function =
        read_function::<4>("#[unsafe(no_mangle)] pub extern \"C\" fn f() { loop {} }");
    let code =
        compile_x86_64_function::<_, 16, 4, 16>(&function, &NoConstants, X86_64Abi::Windows)
            .unwrap();
    assert_eq!(code.bytes(), &[0xe9, 0xfb, 0xff, 0xff, 0xff]);
    let body = function.body.as_mut().unwrap();
    body.statements.clear();
    body.while_loops.clear();
    let code =
        compile_x86_64_function::<_, 16, 4, 16>(&function, &NoConstants, X86_64Abi::Windows)
            .unwrap();
    assert!(code.is_empty());
}
