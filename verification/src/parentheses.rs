//! Parentheses around a text.
use crate::expression::{
    ExprId, ExpressionError, ExpressionErrorKind, Form, MAX_ARRAY_ELEMENTS,
    MAX_CALL_ARGUMENTS, MAX_EXPRESSION_DEPTH, Node, RangeValidation, Tree, level_refused,
    node_at, room,
};
use crate::grammar::{
    Arm, Arms, Binding, Exits, InnerExits, MAX_INLINE_CONST_ASSIGNMENTS,
    MAX_INLINE_CONST_BINDINGS, MAX_INLINE_CONST_EXPRESSION_STATEMENTS,
    MAX_LOOP_BREAK_BRANCHES, MAX_MATCH_ALTERNATIVES, MAX_MATCH_PATTERNS, Parsing, Pattern,
    PatternBody, ValueLoopControlTarget, Word, advances, alternatives_condition, annotated,
    arm_binding, arm_bound, arms_cover, arms_test, assigned_form, assignment_operator,
    binding_place, body_condition, closed_array, closed_call, closed_index_range,
    closed_loop, deciding_body, decision, expect_break_target, expect_kind, expect_operator,
    expect_text, expression_tree, first_state, form_of, front, grouped_binding,
    guarded_condition, is_kind, is_operator, is_text, loop_exits, loop_start, method_form,
    name_form, next_is, next_operator, next_reads, noted_range, operator_named, padded,
    parsed_alternatives, parsed_alternatives_list, parsed_annotation, parsed_arguments,
    parsed_arm, parsed_arm_end, parsed_arm_start, parsed_arms, parsed_array,
    parsed_assignment, parsed_atom, parsed_atom_from, parsed_binding, parsed_block,
    parsed_bound_expression, parsed_bound_statement, parsed_braced_break,
    parsed_branch_operand, parsed_break, parsed_break_operand, parsed_break_target,
    parsed_cast, parsed_casts, parsed_condition_operand, parsed_const, parsed_default,
    parsed_elements, parsed_else, parsed_exit, parsed_expression, parsed_fallback,
    parsed_group, parsed_guard, parsed_if, parsed_index, parsed_index_range,
    parsed_inner_branches, parsed_labelled, parsed_last_exit, parsed_loop,
    parsed_loop_branches, parsed_match, parsed_method, parsed_mut, parsed_mutability,
    parsed_name, parsed_nested_break_operand, parsed_nested_loop, parsed_operators,
    parsed_outer_exit, parsed_parentheses, parsed_pattern, parsed_pattern_bound,
    parsed_plain_atom, parsed_plain_name, parsed_postfix, parsed_range_pattern,
    parsed_repeat, parsed_simple_alternatives, parsed_statements, parsed_suffixes,
    parsed_tree, parsed_unary, parsed_while, peek, prefix_operator, push_across,
    push_character, push_comparison, push_from, push_integer, push_node, push_to,
    push_unit_at, range_pattern, remaining, sequenced, skipped_body, span_of, substituted,
    substituted_all, take, tested_truth, unit_form, upper_operator, with_bindings, word_of,
};
use crate::rules::{
    parsed_arguments_rule, parsed_arm_rule, parsed_arms_rule, parsed_array_rule,
    parsed_assignment_rule, parsed_atom_from_rule, parsed_atom_rule, parsed_binding_rule,
    parsed_block_rule, parsed_bound_expression_rule, parsed_bound_statement_rule,
    parsed_braced_break_rule, parsed_branch_operand_rule, parsed_break_operand_rule,
    parsed_break_rule, parsed_cast_rule, parsed_condition_operand_rule, parsed_const_rule,
    parsed_elements_rule, parsed_else_rule, parsed_exit_rule, parsed_expression_rule,
    parsed_fallback_rule, parsed_guard_rule, parsed_if_rule, parsed_index_range_rule,
    parsed_index_rule, parsed_inner_branches_rule, parsed_labelled_rule,
    parsed_last_exit_rule, parsed_loop_branches_rule, parsed_loop_rule, parsed_match_rule,
    parsed_method_rule, parsed_name_rule, parsed_nested_break_operand_rule,
    parsed_nested_loop_rule, parsed_operators_rule, parsed_outer_exit_rule,
    parsed_parentheses_rule, parsed_plain_atom_rule, parsed_plain_name_rule,
    parsed_postfix_rule, parsed_statements_rule, parsed_suffixes_rule, parsed_unary_rule,
    parsed_while_rule,
};
use crate::integer::{
    BinaryOperator, ScalarType, UnaryOperator, integer_type_named,
};
use crate::literal::{
    character_literal, integer_literal,
};
use crate::token::{
    LexError, Lexeme, Span, TokenKind, blank_end, bytes_before, bytes_grow, char_at,
    char_bytes, comment_end, continues_name, is_blank, lexeme_at, lexing, lexing_from,
    line_end, name_end, quote_end,
};
use crate::limits::parsed_root_limited;
use vstd::prelude::*;

verus! {

/// A place in the text behind one more character.
pub open spec fn moved_place(place: usize) -> usize {
    (place + 1) as usize
}

pub open spec fn moved_span(span: Span) -> Span {
    Span { start: moved_place(span.start), end: moved_place(span.end) }
}

pub open spec fn moved_word(word: Word) -> Word {
    Word { span: moved_span(word.span), ..word }
}

pub open spec fn moved_option(word: Option<Word>) -> Option<Word> {
    match word {
        Some(word) => Some(moved_word(word)),
        None => None,
    }
}

/// A node whose text stands one character further on.
pub open spec fn moved_node(node: Option<Node>) -> Option<Node> {
    match node {
        Some(node) => Some(Node { span: moved_span(node.span), ..node }),
        None => None,
    }
}

pub open spec fn moved_nodes(nodes: Seq<Option<Node>>) -> Seq<Option<Node>> {
    nodes.map_values(|node: Option<Node>| moved_node(node))
}

spec fn moved_arms(arms: Arms) -> Arms {
    Arms { close: moved_word(arms.close), ..arms }
}

spec fn moved_arms_option(arms: Option<Arms>) -> Option<Arms> {
    match arms {
        Some(arms) => Some(moved_arms(arms)),
        None => None,
    }
}

spec fn moved_exits(exits: Exits) -> Exits {
    Exits { close: moved_word(exits.close), ..exits }
}

/// Whether the second state reads the same words as the first between two parentheses.
spec fn beside(p1: Parsing, p2: Parsing) -> bool {
    &&& p2.words.len() == p1.words.len() + 2
    &&& forall|i: int| #![trigger p2.words[i + 1]]
        0 <= i < p1.words.len() ==> p2.words[i + 1] == moved_word(p1.words[i])
    &&& p2.words.last().kind == TokenKind::CloseParen
    &&& p2.words.last().text == ")"@
    &&& 0 <= p1.position <= p1.words.len()
    &&& p2.position == p1.position + 1
    &&& p1.failure is None
    &&& p2.failure is None
    &&& p2.nodes == moved_nodes(p1.nodes)
    &&& p2.ranges == p1.ranges
    &&& p2.limit == p1.limit
}

/// Whether a text is refused because it nests too deep: at the limit itself, or because a block is
/// too deep down to be seen as one without a value.
pub open spec fn too_deep(error: ExpressionError) -> bool {
    ||| error.kind == ExpressionErrorKind::NestingLimitExceeded
    ||| error.kind == ExpressionErrorKind::ExpectedElse
    ||| error.kind == ExpressionErrorKind::InvalidLoopBreakTarget
}

proof fn front_beside(p1: Parsing, p2: Parsing)
    ensures
        beside(p1, p2) ==> {
            &&& (p1.position < p1.words.len()
                ==> front(p1) is Some && front(p2) == moved_option(front(p1)))
            &&& (p1.position == p1.words.len()
                ==> front(p1) is None && front(p2) == Some(p2.words.last()))
        },
{
    if beside(p1, p2) {
        if p1.position < p1.words.len() {
            assert(p2.words[p1.position + 1] == moved_word(p1.words[p1.position]));
        }
    }
}

proof fn peek_beside(p1: Parsing, p2: Parsing)
    ensures
        beside(p1, p2) ==> {
            &&& (peek(p1) matches Ok(q1) && beside(q1, p2) && q1.position == p1.position && q1.words
            == p1.words && front(q1) == front(p1))
            &&& (peek(p2) matches Ok(q2) && beside(p1, q2) && front(q2) == front(p2))
            &&& (beside((peek(p1)->Ok_0), (peek(p2)->Ok_0)))
            &&& (p1.position < p1.words.len()
                ==> front(p1) is Some && front(p2) == moved_option(front(p1)))
            &&& (p1.position == p1.words.len()
                ==> front(p1) is None && front(p2) == Some(p2.words.last()))
        },
{
    if beside(p1, p2) {
        front_beside(p1, p2);
    }
}

proof fn take_beside(p1: Parsing, p2: Parsing)
    ensures
        beside(p1, p2) ==> {
            &&& (take(p1) is Ok)
            &&& (take(p2) is Ok)
            &&& (({
            let (q1, w1) = take(p1)->Ok_0;
            let (q2, w2) = take(p2)->Ok_0;
            &&& w1 is Some ==> beside(q1, q2) && w2 == moved_option(w1)
            &&& w1 is None ==> q1 == p1 && p1.position == p1.words.len() && w2 == Some(
                p2.words.last(),
            )
        }))
        },
{
    if beside(p1, p2) {
        front_beside(p1, p2);
    }
}

proof fn next_is_beside(p1: Parsing, p2: Parsing, kind: TokenKind)
    ensures
        beside(p1, p2) ==> {
            &&& (next_is(p1, kind) is Ok)
            &&& (next_is(p2, kind) is Ok)
            &&& (({
            let (q1, v1) = next_is(p1, kind)->Ok_0;
            let (q2, v2) = next_is(p2, kind)->Ok_0;
            &&& beside(q1, q2)
            &&& v1 == v2 || kind == TokenKind::CloseParen && !v1 && q1.position == q1.words.len()
            &&& v1 ==> q1.position < q1.words.len()
            &&& q1.position < q1.words.len() ==> front(q2) == moved_option(front(q1))
        }))
        },
{
    if beside(p1, p2) {
        peek_beside(p1, p2);
    }
}

proof fn next_reads_beside(p1: Parsing, p2: Parsing, text: Seq<char>)
    ensures
        beside(p1, p2) && text.len() != 1 ==> {
            &&& (next_reads(p1, text) is Ok)
            &&& (next_reads(p2, text) is Ok)
            &&& (({
            let (q1, v1) = next_reads(p1, text)->Ok_0;
            let (q2, v2) = next_reads(p2, text)->Ok_0;
            &&& beside(q1, q2)
            &&& v1 == v2
            &&& v1 ==> q1.position < q1.words.len()
        }))
        },
{
    reveal_strlit(")");
    if beside(p1, p2) && text.len() != 1 {
        peek_beside(p1, p2);
    }
}

proof fn next_operator_beside(p1: Parsing, p2: Parsing, text: Seq<char>)
    ensures
        beside(p1, p2) ==> {
            &&& (next_operator(p1, text) is Ok)
            &&& (next_operator(p2, text) is Ok)
            &&& (({
            let (q1, v1) = next_operator(p1, text)->Ok_0;
            let (q2, v2) = next_operator(p2, text)->Ok_0;
            &&& beside(q1, q2)
            &&& v1 == v2
            &&& v1 ==> q1.position < q1.words.len()
        }))
        },
{
    if beside(p1, p2) {
        peek_beside(p1, p2);
    }
}

/// Where no word is left, there is no expression.
proof fn nothing_left_is_no_expression(p: Parsing, depth: int)
    ensures
        p.failure is None && p.position >= p.words.len() ==> parsed_expression(p, 0, depth) is Err,
{
    parsed_expression_rule(p, 0, depth);
    parsed_cast_rule(p, depth + 1);
    parsed_unary_rule(p, depth + 2);
    parsed_postfix_rule(p, depth + 3);
    parsed_atom_rule(p, depth + 3);
}

/// Where no word is left, there is no pattern.
proof fn nothing_left_is_no_alternative(
    p: Parsing,
    found: Seq<Pattern>,
    binding: Option<Seq<char>>,
    depth: int,
)
    ensures
        p.failure is None && p.position >= p.words.len() ==> parsed_alternatives(
            p,
            found,
            binding,
            depth,
        ) is Err,
{
    if p.failure is None && p.position >= p.words.len() {
        assert(grouped_binding(p) == Ok::<(Parsing, Option<Seq<char>>), ExpressionError>((p, None)));
        assert(next_is(p, TokenKind::OpenParen) == Ok::<(Parsing, bool), ExpressionError>(
            (p, false),
        ));
        assert(parsed_pattern_bound(p, depth + 2) is Err);
        assert(parsed_pattern(p, depth + 1) is Err);
        assert(parsed_simple_alternatives(p, found, binding, depth) is Err);
    }
}

/// Which arms cover all values does not depend on where they stand.
proof fn moved_arms_cover_alike(nodes: Seq<Option<Node>>, arms: Seq<Arm>)
    ensures
        arms_cover(moved_nodes(nodes), arms) == arms_cover(nodes, arms),
{
    reveal(arms_cover);
    assert forall|pattern: Pattern| #[trigger]
        tested_truth(moved_nodes(nodes), pattern) == tested_truth(nodes, pattern) by {}
    assert forall|value: bool| #[trigger]
        arms_test(moved_nodes(nodes), arms, value) == arms_test(nodes, arms, value) by {
        if arms_test(nodes, arms, value) {
            let (a, k) = choose|a: int, k: int|
                0 <= a < arms.len() && arms[a].guard is None && 0 <= k < arms[a].alternatives.len()
                    && tested_truth(nodes, #[trigger] arms[a].alternatives[k]) == Some(value);
            assert(tested_truth(moved_nodes(nodes), arms[a].alternatives[k]) == Some(value));
        }
        if arms_test(moved_nodes(nodes), arms, value) {
            let (a, k) = choose|a: int, k: int|
                0 <= a < arms.len() && arms[a].guard is None && 0 <= k < arms[a].alternatives.len()
                    && tested_truth(moved_nodes(nodes), #[trigger] arms[a].alternatives[k]) == Some(
                    value,
                );
            assert(tested_truth(nodes, arms[a].alternatives[k]) == Some(value));
        }
    }
    assert(arms_test(moved_nodes(nodes), arms, true) == arms_test(nodes, arms, true));
    assert(arms_test(moved_nodes(nodes), arms, false) == arms_test(nodes, arms, false));
}

/// Whether a node has a value does not depend on where it stands.
proof fn moved_units_alike(nodes: Seq<Option<Node>>, id: ExprId, depth: int)
    ensures
        unit_form(moved_nodes(nodes), id, depth) == unit_form(nodes, id, depth),
    decreases room(depth),
{
    reveal(unit_form);
    if !level_refused(depth) {
        if let Some(node) = node_at(nodes, id) {
            match node.form {
                Form::InlineConst { operand } => moved_units_alike(nodes, operand, depth + 1),
                Form::Return { operand } => moved_units_alike(nodes, operand, depth + 1),
                Form::LoopBreak { operand } => moved_units_alike(nodes, operand, depth + 1),
                Form::Sequence { then, .. } => moved_units_alike(nodes, then, depth + 1),
                Form::If { then_branch, else_branch, .. } => {
                    moved_units_alike(nodes, then_branch, depth + 1);
                    moved_units_alike(nodes, else_branch, depth + 1);
                },
                Form::LoopBreakIf { then_branch, else_branch, .. } => {
                    moved_units_alike(nodes, then_branch, depth + 1);
                    moved_units_alike(nodes, else_branch, depth + 1);
                },
                _ => {},
            }
        }
    }
}

/// The same of all nodes.
proof fn all_moved_units_alike(depth: int)
    ensures
        forall|nodes: Seq<Option<Node>>, id: ExprId| #[trigger]
            unit_form(moved_nodes(nodes), id, depth) == unit_form(nodes, id, depth),
{
    assert forall|nodes: Seq<Option<Node>>, id: ExprId| #[trigger]
        unit_form(moved_nodes(nodes), id, depth) == unit_form(nodes, id, depth) by {
        moved_units_alike(nodes, id, depth);
    }
}

/// A closing parenthesis is no operator.
proof fn closing_is_no_operator()
    ensures
        operator_named(")"@) is None,
        prefix_operator(")"@) is None,
{
    reveal_strlit("!");
    reveal_strlit("!=");
    reveal_strlit("%");
    reveal_strlit("&");
    reveal_strlit("&&");
    reveal_strlit(")");
    reveal_strlit("*");
    reveal_strlit("+");
    reveal_strlit("-");
    reveal_strlit("/");
    reveal_strlit("<");
    reveal_strlit("<<");
    reveal_strlit("<=");
    reveal_strlit("==");
    reveal_strlit(">");
    reveal_strlit(">=");
    reveal_strlit(">>");
    reveal_strlit("^");
    reveal_strlit("|");
    reveal_strlit("||");
    assert("!"@ != ")"@) by { assert("!"@[0] != ")"@[0]); }
    assert("%"@ != ")"@) by { assert("%"@[0] != ")"@[0]); }
    assert("&"@ != ")"@) by { assert("&"@[0] != ")"@[0]); }
    assert("*"@ != ")"@) by { assert("*"@[0] != ")"@[0]); }
    assert("+"@ != ")"@) by { assert("+"@[0] != ")"@[0]); }
    assert("-"@ != ")"@) by { assert("-"@[0] != ")"@[0]); }
    assert("/"@ != ")"@) by { assert("/"@[0] != ")"@[0]); }
    assert("<"@ != ")"@) by { assert("<"@[0] != ")"@[0]); }
    assert(">"@ != ")"@) by { assert(">"@[0] != ")"@[0]); }
    assert("^"@ != ")"@) by { assert("^"@[0] != ")"@[0]); }
    assert("|"@ != ")"@) by { assert("|"@[0] != ")"@[0]); }
    assert("!"@.len() == 1);
    assert("!="@.len() == 2);
    assert("%"@.len() == 1);
    assert("&"@.len() == 1);
    assert("&&"@.len() == 2);
    assert(")"@.len() == 1);
    assert("*"@.len() == 1);
    assert("+"@.len() == 1);
    assert("-"@.len() == 1);
    assert("/"@.len() == 1);
    assert("<"@.len() == 1);
    assert("<<"@.len() == 2);
    assert("<="@.len() == 2);
    assert("=="@.len() == 2);
    assert(">"@.len() == 1);
    assert(">="@.len() == 2);
    assert(">>"@.len() == 2);
    assert("^"@.len() == 1);
    assert("|"@.len() == 1);
    assert("||"@.len() == 2);
}

proof fn expect_kind_beside(
    p1: Parsing,
    p2: Parsing,
    kind: TokenKind,
    error: ExpressionErrorKind,
)
    ensures
        beside(p1, p2) ==> (
        expect_kind(p1, kind, error) matches Ok((q1, v1)) ==> (match expect_kind(p2, kind, error) {
            Ok((q2, v2)) => beside(q1, q2) && v2 == moved_word(v1),
            Err(_) => false,
        })),
{
    take_beside(p1, p2);
}

proof fn expect_text_beside(
    p1: Parsing,
    p2: Parsing,
    text: Seq<char>,
    error: ExpressionErrorKind,
)
    ensures
        beside(p1, p2) ==> (
        expect_text(p1, text, error) matches Ok((q1, v1)) ==> (match expect_text(p2, text, error) {
            Ok((q2, v2)) => beside(q1, q2) && v2 == moved_word(v1),
            Err(_) => false,
        })),
{
    take_beside(p1, p2);
}

proof fn expect_operator_beside(
    p1: Parsing,
    p2: Parsing,
    text: Seq<char>,
    error: ExpressionErrorKind,
)
    ensures
        beside(p1, p2) ==> (
        expect_operator(p1, text, error) matches Ok((q1, v1))
            ==> (match expect_operator(p2, text, error) {
            Ok((q2, v2)) => beside(q1, q2) && v2 == moved_word(v1),
            Err(_) => false,
        })),
{
    take_beside(p1, p2);
}

proof fn push_node_beside(
    p1: Parsing,
    p2: Parsing,
    form: Form,
    span1: Span,
    span2: Span,
)
    ensures
        beside(p1, p2) && span2 == moved_span(span1) ==> (
        push_node(p1, form, span1) matches Ok((q1, v1)) ==> (match push_node(p2, form, span2) {
            Ok((q2, v2)) => beside(q1, q2) && v2 == v1,
            Err(_) => false,
        })),
{
    let more = p1.nodes.push(Some(Node { form, span: span1 }));
    assert(moved_nodes(more) =~= moved_nodes(p1.nodes).push(
        Some(Node { form, span: moved_span(span1) }),
    ));
}

proof fn push_across_beside(
    p1: Parsing,
    p2: Parsing,
    form: Form,
    first: ExprId,
    last: ExprId,
)
    ensures
        beside(p1, p2) ==> (
        push_across(p1, form, first, last) matches Ok((q1, v1))
            ==> (match push_across(p2, form, first, last) {
            Ok((q2, v2)) => beside(q1, q2) && v2 == v1,
            Err(_) => false,
        })),
{
    match span_of(p1, first) {
        Err(error1) => {},
        Ok(start1) => {
            if let Ok(start2) = span_of(p2, first) {
                match span_of(p1, last) {
                    Err(error1) => {},
                    Ok(end1) => {
                        if let Ok(end2) = span_of(p2, last) {
                            push_node_beside(
                                p1,
                                p2,
                                form,
                                Span { start: start1.start, end: end1.end },
                                Span { start: start2.start, end: end2.end },
                            );
                        }
                    },
                }
            }
        },
    }
}

proof fn push_from_beside(
    p1: Parsing,
    p2: Parsing,
    form: Form,
    start1: usize,
    start2: usize,
    last: ExprId,
)
    ensures
        beside(p1, p2) && start2 == moved_place(start1) ==> (
        push_from(p1, form, start1, last) matches Ok((q1, v1))
            ==> (match push_from(p2, form, start2, last) {
            Ok((q2, v2)) => beside(q1, q2) && v2 == v1,
            Err(_) => false,
        })),
{
    match span_of(p1, last) {
        Err(error1) => {},
        Ok(end1) => {
            if let Ok(end2) = span_of(p2, last) {
                push_node_beside(
                    p1,
                    p2,
                    form,
                    Span { start: start1, end: end1.end },
                    Span { start: start2, end: end2.end },
                );
            }
        },
    }
}

proof fn substituted_beside(
    length1: usize,
    length2: usize,
    nodes1: Seq<Option<Node>>,
    nodes2: Seq<Option<Node>>,
    id: ExprId,
    name: Seq<char>,
    form: Form,
    depth1: int,
    depth2: int,
)
    ensures
        nodes2 == moved_nodes(nodes1) ==> (
        substituted(length1, nodes1, id, name, form, depth1) matches Ok(n1)
            ==> (match substituted(length2, nodes2, id, name, form, depth2) {
            Ok(n2) => n2 == moved_nodes(n1),
            Err(error) => too_deep(error) && depth1 != depth2,
        })),
    decreases room(depth1), 0int,
{
    match node_at(nodes1, id) {
        None => {},
        Some(node1) => {
            if let Some(node2) = node_at(nodes2, id) {
                if level_refused(depth1) {
                } else {
                    match node1.form {
                        Form::Identifier(identifier1) => {},
                        Form::Call { arguments: arguments1, argument_count: argument_count1, .. } => {
                            if let Form::Call {
                                arguments: arguments2,
                                argument_count: argument_count2,
                                ..
                            } = node2.form {
                                if argument_count1
                    > MAX_CALL_ARGUMENTS {
                                } else {
                                    substituted_all_beside(
                                        length1,
                                        length2,
                                        nodes1,
                                        nodes2,
                                        arguments1,
                                        argument_count1 as int,
                                        name,
                                        form,
                                        depth1 + 1,
                                        depth2 + 1,
                                    );
                                }
                            }
                        },
                        Form::Array { elements: elements1, element_count: element_count1 } => {
                            if let Form::Array {
                                elements: elements2,
                                element_count: element_count2,
                            } = node2.form {
                                if element_count1 > MAX_ARRAY_ELEMENTS {
                                } else {
                                    substituted_all_beside(
                                        length1,
                                        length2,
                                        nodes1,
                                        nodes2,
                                        elements1,
                                        element_count1 as int,
                                        name,
                                        form,
                                        depth1 + 1,
                                        depth2 + 1,
                                    );
                                }
                            }
                        },
                        Form::Cast { operand: operand1, .. } => {
                            if let Form::Cast { operand: operand2, .. } = node2.form {
                                substituted_beside(
                                    length1,
                                    length2,
                                    nodes1,
                                    nodes2,
                                    operand1,
                                    name,
                                    form,
                                    depth1 + 1,
                                    depth2 + 1,
                                );
                            }
                        },
                        Form::Ascribe { operand: operand1, .. } => {
                            if let Form::Ascribe { operand: operand2, .. } = node2.form {
                                substituted_beside(
                                    length1,
                                    length2,
                                    nodes1,
                                    nodes2,
                                    operand1,
                                    name,
                                    form,
                                    depth1 + 1,
                                    depth2 + 1,
                                );
                            }
                        },
                        Form::Unary { operand: operand1, .. } => {
                            if let Form::Unary { operand: operand2, .. } = node2.form {
                                substituted_beside(
                                    length1,
                                    length2,
                                    nodes1,
                                    nodes2,
                                    operand1,
                                    name,
                                    form,
                                    depth1 + 1,
                                    depth2 + 1,
                                );
                            }
                        },
                        Form::Return { operand: operand1 } => {
                            if let Form::Return { operand: operand2 } = node2.form {
                                substituted_beside(
                                    length1,
                                    length2,
                                    nodes1,
                                    nodes2,
                                    operand1,
                                    name,
                                    form,
                                    depth1 + 1,
                                    depth2 + 1,
                                );
                            }
                        },
                        Form::LoopBreak { operand: operand1 } => {
                            if let Form::LoopBreak { operand: operand2 } = node2.form {
                                substituted_beside(
                                    length1,
                                    length2,
                                    nodes1,
                                    nodes2,
                                    operand1,
                                    name,
                                    form,
                                    depth1 + 1,
                                    depth2 + 1,
                                );
                            }
                        },
                        Form::ArrayRepeat { element: element1, .. } => {
                            if let Form::ArrayRepeat { element: element2, .. } = node2.form {
                                substituted_beside(
                                    length1,
                                    length2,
                                    nodes1,
                                    nodes2,
                                    element1,
                                    name,
                                    form,
                                    depth1 + 1,
                                    depth2 + 1,
                                );
                            }
                        },
                        Form::SliceLen { base: base1 } => {
                            if let Form::SliceLen { base: base2 } = node2.form {
                                substituted_beside(
                                    length1,
                                    length2,
                                    nodes1,
                                    nodes2,
                                    base1,
                                    name,
                                    form,
                                    depth1 + 1,
                                    depth2 + 1,
                                );
                            }
                        },
                        Form::SliceIsEmpty { base: base1 } => {
                            if let Form::SliceIsEmpty { base: base2 } = node2.form {
                                substituted_beside(
                                    length1,
                                    length2,
                                    nodes1,
                                    nodes2,
                                    base1,
                                    name,
                                    form,
                                    depth1 + 1,
                                    depth2 + 1,
                                );
                            }
                        },
                        Form::StrAsBytes { base: base1 } => {
                            if let Form::StrAsBytes { base: base2 } = node2.form {
                                substituted_beside(
                                    length1,
                                    length2,
                                    nodes1,
                                    nodes2,
                                    base1,
                                    name,
                                    form,
                                    depth1 + 1,
                                    depth2 + 1,
                                );
                            }
                        },
                        Form::ReferenceAsPointer { base: base1, .. } => {
                            if let Form::ReferenceAsPointer { base: base2, .. } = node2.form {
                                substituted_beside(
                                    length1,
                                    length2,
                                    nodes1,
                                    nodes2,
                                    base1,
                                    name,
                                    form,
                                    depth1 + 1,
                                    depth2 + 1,
                                );
                            }
                        },
                        Form::Binary { left: left1, right: right1, .. } => {
                            if let Form::Binary { left: left2, right: right2, .. } = node2.form {
                                substituted_all_beside(
                                    length1,
                                    length2,
                                    nodes1,
                                    nodes2,
                                    seq![Some(left1), Some(right1)],
                                    2,
                                    name,
                                    form,
                                    depth1 + 1,
                                    depth2 + 1,
                                );
                            }
                        },
                        Form::Sequence { first: first1, then: then1 } => {
                            if let Form::Sequence { first: first2, then: then2 } = node2.form {
                                substituted_all_beside(
                                    length1,
                                    length2,
                                    nodes1,
                                    nodes2,
                                    seq![Some(first1), Some(then1)],
                                    2,
                                    name,
                                    form,
                                    depth1 + 1,
                                    depth2 + 1,
                                );
                            }
                        },
                        Form::Index { base: base1, index: index1 } => {
                            if let Form::Index { base: base2, index: index2 } = node2.form {
                                substituted_all_beside(
                                    length1,
                                    length2,
                                    nodes1,
                                    nodes2,
                                    seq![Some(base1), Some(index1)],
                                    2,
                                    name,
                                    form,
                                    depth1 + 1,
                                    depth2 + 1,
                                );
                            }
                        },
                        Form::StrIsCharBoundary { base: base1, index: index1 } => {
                            if let Form::StrIsCharBoundary {
                                base: base2,
                                index: index2,
                            } = node2.form {
                                substituted_all_beside(
                                    length1,
                                    length2,
                                    nodes1,
                                    nodes2,
                                    seq![Some(base1), Some(index1)],
                                    2,
                                    name,
                                    form,
                                    depth1 + 1,
                                    depth2 + 1,
                                );
                            }
                        },
                        Form::RangeIndex { base: base1, start: start1, end: end1, .. } => {
                            if let Form::RangeIndex {
                                base: base2,
                                start: start2,
                                end: end2,
                                ..
                            } = node2.form {
                                substituted_all_beside(
                                    length1,
                                    length2,
                                    nodes1,
                                    nodes2,
                                    seq![Some(base1), start1, end1],
                                    3,
                                    name,
                                    form,
                                    depth1 + 1,
                                    depth2 + 1,
                                );
                            }
                        },
                        Form::If { condition: condition1, then_branch: then_branch1, else_branch: else_branch1 } => {
                            if let Form::If {
                                condition: condition2,
                                then_branch: then_branch2,
                                else_branch: else_branch2,
                            } = node2.form {
                                substituted_all_beside(
                                    length1,
                                    length2,
                                    nodes1,
                                    nodes2,
                                    seq![Some(condition1), Some(then_branch1), Some(else_branch1)],
                                    3,
                                    name,
                                    form,
                                    depth1 + 1,
                                    depth2 + 1,
                                );
                            }
                        },
                        Form::LoopBreakIf { condition: condition1, then_branch: then_branch1, else_branch: else_branch1 } => {
                            if let Form::LoopBreakIf {
                                condition: condition2,
                                then_branch: then_branch2,
                                else_branch: else_branch2,
                            } = node2.form {
                                substituted_all_beside(
                                    length1,
                                    length2,
                                    nodes1,
                                    nodes2,
                                    seq![Some(condition1), Some(then_branch1), Some(else_branch1)],
                                    3,
                                    name,
                                    form,
                                    depth1 + 1,
                                    depth2 + 1,
                                );
                            }
                        },
                        _ => {},
                    }
                }
            }
        },
    }
}

proof fn substituted_all_beside(
    length1: usize,
    length2: usize,
    nodes1: Seq<Option<Node>>,
    nodes2: Seq<Option<Node>>,
    ids: Seq<Option<ExprId>>,
    count: int,
    name: Seq<char>,
    form: Form,
    depth1: int,
    depth2: int,
)
    ensures
        nodes2 == moved_nodes(nodes1) ==> (
        substituted_all(length1, nodes1, ids, count, name, form, depth1) matches Ok(n1)
            ==> (match substituted_all(length2, nodes2, ids, count, name, form, depth2) {
            Ok(n2) => n2 == moved_nodes(n1),
            Err(error) => too_deep(error) && depth1 != depth2,
        })),
    decreases room(depth1), count,
{
    if count <= 0 {
    } else {
        substituted_all_beside(
            length1,
            length2,
            nodes1,
            nodes2,
            ids,
            count - 1,
            name,
            form,
            depth1,
            depth2,
        );
        match substituted_all(length1, nodes1, ids, count - 1, name, form, depth1) {
            Err(error1) => {},
            Ok(nodes1) => {
                if let Ok(nodes2) = substituted_all(length2, nodes2, ids, count - 1, name, form, depth2) {
                    match ids[count - 1] {
                        None => {},
                        Some(id1) => {
                            if let Some(id2) = ids[count - 1] {
                                substituted_beside(
                                    length1,
                                    length2,
                                    nodes1,
                                    nodes2,
                                    id1,
                                    name,
                                    form,
                                    depth1,
                                    depth2,
                                );
                            }
                        },
                    }
                }
            },
        }
    }
}

proof fn with_bindings_beside(
    p1: Parsing,
    p2: Parsing,
    id: ExprId,
    bindings: Seq<Binding>,
    count: int,
    depth1: int,
    depth2: int,
)
    ensures
        beside(p1, p2) ==> (
        with_bindings(p1, id, bindings, count, depth1) matches Ok(q1)
            ==> (match with_bindings(p2, id, bindings, count, depth2) {
            Ok(q2) => beside(q1, q2),
            Err(error) => too_deep(error) && depth1 != depth2,
        })),
    decreases count,
{
    reveal(with_bindings);
    if count <= 0 {
    } else {
        let binding1 = bindings[count - 1];
        let binding2 = bindings[count - 1];
        substituted_beside(
            p1.length,
            p2.length,
            p1.nodes,
            p2.nodes,
            id,
            binding1.name,
            binding1.form,
            depth1,
            depth2,
        );
        match substituted(p1.length, p1.nodes, id, binding1.name, binding1.form, depth1) {
            Err(error1) => {},
            Ok(nodes1) => {
                if let Ok(nodes2) = substituted(p2.length, p2.nodes, id, binding2.name, binding2.form, depth2) {
                    with_bindings_beside(
                        Parsing { nodes: nodes1, ..p1 },
                        Parsing { nodes: nodes2, ..p2 },
                        id,
                        bindings,
                        count - 1,
                        depth1,
                        depth2,
                    );
                }
            },
        }
    }
}

proof fn annotated_beside(
    p1: Parsing,
    p2: Parsing,
    form: Form,
    annotation: Option<ScalarType>,
    name1: Word,
    name2: Word,
    value: ExprId,
)
    ensures
        beside(p1, p2) && name2 == moved_word(name1) ==> (
        annotated(p1, form, annotation, name1, value) matches Ok((q1, v1))
            ==> (match annotated(p2, form, annotation, name2, value) {
            Ok((q2, v2)) => beside(q1, q2) && v2 == v1,
            Err(_) => false,
        })),
{
    reveal(annotated);
    match annotation {
        None => {},
        Some(target1) => {
            if let Some(target2) = annotation {
                match span_of(p1, value) {
                    Err(error1) => {},
                    Ok(span1) => {
                        if let Ok(span2) = span_of(p2, value) {
                            push_node_beside(p1, p2, form, span1, span2);
                            match push_node(p1, form, span1) {
                                Err(error1) => {},
                                Ok((q1, operand1)) => {
                                    if let Ok((q2, operand2)) = push_node(p2, form, span2) {
                                        let ascription1 = Form::Ascribe { operand: operand1, target: target1 };
                                        let ascription2 = Form::Ascribe { operand: operand2, target: target2 };
                                        push_from_beside(
                                            q1,
                                            q2,
                                            ascription1,
                                            name1.span.start,
                                            name2.span.start,
                                            value,
                                        );
                                    }
                                },
                            }
                        }
                    },
                }
            }
        },
    }
}

proof fn parsed_annotation_beside(
    p1: Parsing,
    p2: Parsing,
)
    ensures
        beside(p1, p2) ==> (
        parsed_annotation(p1) matches Ok((q1, v1)) ==> (match parsed_annotation(p2) {
            Ok((q2, v2)) => beside(q1, q2) && v2 == v1,
            Err(_) => false,
        })),
{
    reveal(parsed_annotation);
    next_is_beside(p1, p2, TokenKind::Colon);
    match next_is(p1, TokenKind::Colon) {
        Err(error1) => {},
        Ok((p1, false)) => {},
        Ok((p1, true)) => {
            if let Ok((p2, true)) = next_is(p2, TokenKind::Colon) {
                take_beside(p1, p2);
                match take(p1) {
                    Err(error1) => {},
                    Ok((p1, _)) => {
                        if let Ok((p2, _)) = take(p2) {
                            expect_kind_beside(
                                p1,
                                p2,
                                TokenKind::Identifier,
                                ExpressionErrorKind::ExpectedInlineConstType,
                            );
                        }
                    },
                }
            }
        },
    }
}

proof fn push_integer_beside(
    p1: Parsing,
    p2: Parsing,
    word1: Word,
    word2: Word,
)
    ensures
        beside(p1, p2) && word2 == moved_word(word1) ==> (
        push_integer(p1, word1) matches Ok((q1, v1)) ==> (match push_integer(p2, word2) {
            Ok((q2, v2)) => beside(q1, q2) && v2 == v1,
            Err(_) => false,
        })),
{
    match integer_literal(word1.text) {
        Err(kind1) => {},
        Ok((value1, suffix1)) => {
            if let Ok((value2, suffix2)) = integer_literal(word2.text) {
                push_node_beside(
                    p1,
                    p2,
                    Form::Integer { value: value1, suffix: suffix1 },
                    word1.span,
                    word2.span,
                );
            }
        },
    }
}

proof fn push_character_beside(
    p1: Parsing,
    p2: Parsing,
    word1: Word,
    word2: Word,
)
    ensures
        beside(p1, p2) && word2 == moved_word(word1) ==> (
        push_character(p1, word1) matches Ok((q1, v1)) ==> (match push_character(p2, word2) {
            Ok((q2, v2)) => beside(q1, q2) && v2 == v1,
            Err(_) => false,
        })),
{
    match character_literal(word1.text) {
        None => {},
        Some(value1) => {
            if let Some(value2) = character_literal(word2.text) {
                push_node_beside(p1, p2, Form::Char(value1), word1.span, word2.span);
            }
        },
    }
}

proof fn parsed_pattern_bound_beside(
    p1: Parsing,
    p2: Parsing,
    depth1: int,
    depth2: int,
)
    ensures
        beside(p1, p2) ==> (
        parsed_pattern_bound(p1, depth1) matches Ok((q1, v1))
            ==> (match parsed_pattern_bound(p2, depth2) {
            Ok((q2, v2)) => beside(q1, q2) && v2 == v1,
            Err(error) => too_deep(error) && depth1 != depth2,
        })),
{
    reveal_strlit("-");
    reveal_strlit("_");
    reveal_strlit("false");
    reveal_strlit("mut");
    reveal_strlit("true");
    if level_refused(depth1) {
    } else {
        take_beside(p1, p2);
        match take(p1) {
            Err(error1) => {},
            Ok((q1, None)) => {},
            Ok((q1, Some(word1))) => {
                if let Ok((q2, Some(word2))) = take(p2) {
                    if word1.kind == TokenKind::Integer {
                        push_integer_beside(q1, q2, word1, word2);
                    } else {
                        if word1.kind == TokenKind::Character {
                            push_character_beside(q1, q2, word1, word2);
                        } else {
                            if word1.text == "true"@ || word1.text == "false"@ {
                                push_node_beside(
                                    q1,
                                    q2,
                                    Form::Bool(word1.text == "true"@),
                                    word1.span,
                                    word2.span,
                                );
                            } else {
                                if word1.kind == TokenKind::Identifier && word1.text != "_"@ && word1.text
                != "mut"@ {
                                    push_node_beside(
                                        q1,
                                        q2,
                                        Form::Identifier(word1.text),
                                        word1.span,
                                        word2.span,
                                    );
                                } else {
                                    if word1.kind == TokenKind::Operator && word1.text == "-"@ {
                                        expect_kind_beside(
                                            q1,
                                            q2,
                                            TokenKind::Integer,
                                            ExpressionErrorKind::ExpectedMatchPattern,
                                        );
                                        match expect_kind(
                    q1,
                    TokenKind::Integer,
                    ExpressionErrorKind::ExpectedMatchPattern,
                ) {
                                            Err(error1) => {},
                                            Ok((q1, literal1)) => {
                                                if let Ok((q2, literal2)) = expect_kind(
                    q2,
                    TokenKind::Integer,
                    ExpressionErrorKind::ExpectedMatchPattern,
                ) {
                                                    push_integer_beside(
                                                        q1,
                                                        q2,
                                                        literal1,
                                                        literal2,
                                                    );
                                                    match push_integer(q1, literal1) {
                                                        Err(error1) => {},
                                                        Ok((q1, operand1)) => {
                                                            if let Ok((q2, operand2)) = push_integer(q2, literal2) {
                                                                push_node_beside(
                                                                    q1,
                                                                    q2,
                                                                    Form::Unary { operator: UnaryOperator::Negate, operand: operand1 },
                                                                    Span { start: word1.span.start, end: literal1.span.end },
                                                                    Span { start: word2.span.start, end: literal2.span.end },
                                                                );
                                                            }
                                                        },
                                                    }
                                                }
                                            },
                                        }
                                    }
                                }
                            }
                        }
                    }
                }
            },
        }
    }
}

proof fn range_pattern_beside(
    p1: Parsing,
    p2: Parsing,
    start: Option<ExprId>,
    end: Option<ExprId>,
    inclusive: bool,
)
    ensures
        beside(p1, p2) ==> (
        range_pattern(p1, start, end, inclusive) matches Ok((q1, v1))
            ==> (match range_pattern(p2, start, end, inclusive) {
            Ok((q2, v2)) => beside(q1, q2) && v2 == v1,
            Err(_) => false,
        })),
{
}

proof fn parsed_range_pattern_beside(
    p1: Parsing,
    p2: Parsing,
    start: Option<ExprId>,
    depth1: int,
    depth2: int,
)
    ensures
        beside(p1, p2) ==> (
        parsed_range_pattern(p1, start, depth1) matches Ok((q1, v1))
            ==> (match parsed_range_pattern(p2, start, depth2) {
            Ok((q2, v2)) => beside(q1, q2) && v2 == v1,
            Err(error) => too_deep(error) && depth1 != depth2,
        })),
{
    reveal_strlit("=");
    reveal_strlit("|");
    take_beside(p1, p2);
    match take(p1) {
        Err(error1) => {},
        Ok((p1, _)) => {
            if let Ok((p2, _)) = take(p2) {
                expect_kind_beside(
                    p1,
                    p2,
                    TokenKind::Dot,
                    ExpressionErrorKind::ExpectedMatchPattern,
                );
                match expect_kind(
            p1,
            TokenKind::Dot,
            ExpressionErrorKind::ExpectedMatchPattern,
        ) {
                    Err(error1) => {},
                    Ok((p1, _)) => {
                        if let Ok((p2, _)) = expect_kind(
            p2,
            TokenKind::Dot,
            ExpressionErrorKind::ExpectedMatchPattern,
        ) {
                            next_operator_beside(p1, p2, "="@);
                            match next_operator(p1, "="@) {
                                Err(error1) => {},
                                Ok((p1, true)) => {
                                    if let Ok((p2, true)) = next_operator(p2, "="@) {
                                        take_beside(p1, p2);
                                        match take(p1) {
                                            Err(error1) => {},
                                            Ok((p1, _)) => {
                                                if let Ok((p2, _)) = take(p2) {
                                                    parsed_pattern_bound_beside(
                                                        p1,
                                                        p2,
                                                        depth1 + 1,
                                                        depth2 + 1,
                                                    );
                                                    match parsed_pattern_bound(p1, depth1 + 1) {
                                                        Err(error1) => {},
                                                        Ok((p1, end1)) => {
                                                            if let Ok((p2, end2)) = parsed_pattern_bound(p2, depth2 + 1) {
                                                                range_pattern_beside(
                                                                    p1,
                                                                    p2,
                                                                    start,
                                                                    Some(end1),
                                                                    true,
                                                                );
                                                            }
                                                        },
                                                    }
                                                }
                                            },
                                        }
                                    }
                                },
                                Ok((p1, false)) => {
                                    if let Ok((p2, false)) = next_operator(p2, "="@) {
                                        peek_beside(p1, p2);
                                        match peek(p1) {
                                            Err(error1) => {},
                                            Ok(p1) => {
                                                if let Ok(p2) = peek(p2) {
                                                    if is_kind(front(p1), TokenKind::FatArrow) || is_operator(
                        front(p1),
                        "|"@,
                    ) {
                                                        range_pattern_beside(
                                                            p1,
                                                            p2,
                                                            start,
                                                            None,
                                                            false,
                                                        );
                                                    } else {
                                                        parsed_pattern_bound_beside(
                                                            p1,
                                                            p2,
                                                            depth1 + 1,
                                                            depth2 + 1,
                                                        );
                                                        match parsed_pattern_bound(p1, depth1 + 1) {
                                                            Err(error1) => {},
                                                            Ok((p1, end1)) => {
                                                                if let Ok((p2, end2)) = parsed_pattern_bound(p2, depth2 + 1) {
                                                                    range_pattern_beside(
                                                                        p1,
                                                                        p2,
                                                                        start,
                                                                        Some(end1),
                                                                        false,
                                                                    );
                                                                }
                                                            },
                                                        }
                                                    }
                                                }
                                            },
                                        }
                                    }
                                },
                            }
                        }
                    },
                }
            }
        },
    }
}

proof fn parsed_pattern_beside(
    p1: Parsing,
    p2: Parsing,
    depth1: int,
    depth2: int,
)
    ensures
        beside(p1, p2) ==> (
        parsed_pattern(p1, depth1) matches Ok((q1, v1)) ==> (match parsed_pattern(p2, depth2) {
            Ok((q2, v2)) => beside(q1, q2) && v2 == v1,
            Err(error) => too_deep(error) && depth1 != depth2,
        })),
    decreases room(depth1),
{
    reveal_strlit("@");
    reveal_strlit("_");
    peek_beside(p1, p2);
    match peek(p1) {
        Err(error1) => {},
        Ok(p1) => {
            if let Ok(p2) = peek(p2) {
                if is_kind(front(p1), TokenKind::Identifier) && is_text(front(p1), "_"@) {
                    take_beside(p1, p2);
                } else {
                    if is_kind(front(p1), TokenKind::Dot) {
                        parsed_range_pattern_beside(p1, p2, None, depth1, depth2);
                    } else {
                        parsed_pattern_bound_beside(p1, p2, depth1 + 1, depth2 + 1);
                        match parsed_pattern_bound(p1, depth1 + 1) {
                            Err(error1) => {},
                            Ok((p1, start1)) => {
                                if let Ok((p2, start2)) = parsed_pattern_bound(p2, depth2 + 1) {
                                    next_operator_beside(p1, p2, "@"@);
                                    match next_operator(p1, "@"@) {
                                        Err(error1) => {},
                                        Ok((p1, true)) => {
                                            if let Ok((p2, true)) = next_operator(p2, "@"@) {
                                                match name_form(p1.nodes, start1) {
                                                    None => {},
                                                    Some(name1) => {
                                                        if let Some(name2) = name_form(p2.nodes, start2) {
                                                            take_beside(p1, p2);
                                                            match take(p1) {
                                                                Err(error1) => {},
                                                                Ok((p1, _)) => {
                                                                    if let Ok((p2, _)) = take(p2) {
                                                                        parsed_pattern_beside(
                                                                            p1,
                                                                            p2,
                                                                            depth1 + 1,
                                                                            depth2 + 1,
                                                                        );
                                                                    }
                                                                },
                                                            }
                                                        }
                                                    },
                                                }
                                            }
                                        },
                                        Ok((p1, false)) => {
                                            if let Ok((p2, false)) = next_operator(p2, "@"@) {
                                                if is_kind(front(p1), TokenKind::Dot) {
                                                    parsed_range_pattern_beside(
                                                        p1,
                                                        p2,
                                                        Some(start1),
                                                        depth1,
                                                        depth2,
                                                    );
                                                }
                                            }
                                        },
                                    }
                                }
                            },
                        }
                    }
                }
            }
        },
    }
}

proof fn grouped_binding_beside(
    p1: Parsing,
    p2: Parsing,
)
    ensures
        beside(p1, p2) ==> (
        grouped_binding(p1) matches Ok((q1, v1)) ==> (match grouped_binding(p2) {
            Ok((q2, v2)) => beside(q1, q2) && v2 == v1,
            Err(_) => false,
        })),
{
    reveal_strlit("@");
    reveal_strlit("_");
    take_beside(p1, p2);
    match take(p1) {
        Err(error1) => {},
        Ok((q1, candidate1)) => {
            if let Ok((q2, candidate2)) = take(p2) {
                take_beside(q1, q2);
                match take(q1) {
                    Err(error1) => {},
                    Ok((q1, at1)) => {
                        if let Ok((q2, at2)) = take(q2) {
                            if is_kind(candidate1, TokenKind::Identifier) && !is_text(
                candidate1,
                "_"@,
            ) && is_operator(at1, "@"@) {
                                peek_beside(q1, q2);
                            }
                        }
                    },
                }
            }
        },
    }
}

proof fn parsed_alternatives_beside(
    p1: Parsing,
    p2: Parsing,
    found: Seq<Pattern>,
    binding: Option<Seq<char>>,
    depth1: int,
    depth2: int,
)
    ensures
        beside(p1, p2) ==> (
        parsed_alternatives(p1, found, binding, depth1) matches Ok((q1, v1))
            ==> (match parsed_alternatives(p2, found, binding, depth2) {
            Ok((q2, v2)) => beside(q1, q2) && v2 == v1,
            Err(error) => too_deep(error) && depth1 != depth2,
        })),
    decreases room(depth1), 2int, 0int,
{
    if level_refused(depth1) {
    } else {
        if binding is None {
            grouped_binding_beside(p1, p2);
            match grouped_binding(p1) {
                Err(error1) => {},
                Ok((q1, Some(name1))) => {
                    if let Ok((q2, Some(name2))) = grouped_binding(p2) {
                        parsed_alternatives_beside(
                            q1,
                            q2,
                            found,
                            Some(name1),
                            depth1 + 1,
                            depth2 + 1,
                        );
                    }
                },
                Ok((q1, None)) => {
                    if let Ok((q2, None)) = grouped_binding(p2) {
                        parsed_simple_alternatives_beside(q1, q2, found, binding, depth1, depth2);
                    }
                },
            }
        } else {
            parsed_simple_alternatives_beside(p1, p2, found, binding, depth1, depth2);
        }
    }
}

proof fn parsed_simple_alternatives_beside(
    p1: Parsing,
    p2: Parsing,
    found: Seq<Pattern>,
    binding: Option<Seq<char>>,
    depth1: int,
    depth2: int,
)
    ensures
        beside(p1, p2) ==> (
        parsed_simple_alternatives(p1, found, binding, depth1) matches Ok((q1, v1))
            ==> (match parsed_simple_alternatives(p2, found, binding, depth2) {
            Ok((q2, v2)) => beside(q1, q2) && v2 == v1,
            Err(error) => too_deep(error) && depth1 != depth2,
        })),
    decreases room(depth1), 1int, 0int,
{
    reveal_strlit("|");
    next_is_beside(p1, p2, TokenKind::OpenParen);
    match next_is(p1, TokenKind::OpenParen) {
        Err(error1) => {},
        Ok((p1, true)) => {
            if let Ok((p2, true)) = next_is(p2, TokenKind::OpenParen) {
                take_beside(p1, p2);
                match take(p1) {
                    Err(error1) => {},
                    Ok((p1, _)) => {
                        if let Ok((p2, _)) = take(p2) {
                            next_operator_beside(p1, p2, "|"@);
                            match next_operator(p1, "|"@) {
                                Err(error1) => {},
                                Ok((p1, true)) => {
                                    if let Ok((p2, true)) = next_operator(p2, "|"@) {
                                        take_beside(p1, p2);
                                        match take(p1) {
                                            Err(error1) => {},
                                            Ok((p1, _)) => {
                                                if let Ok((p2, _)) = take(p2) {
                                                    parsed_group_beside(
                                                        p1,
                                                        p2,
                                                        found,
                                                        binding,
                                                        depth1,
                                                        depth2,
                                                    );
                                                }
                                            },
                                        }
                                    }
                                },
                                Ok((p1, false)) => {
                                    if let Ok((p2, false)) = next_operator(p2, "|"@) {
                                        parsed_group_beside(
                                            p1,
                                            p2,
                                            found,
                                            binding,
                                            depth1,
                                            depth2,
                                        );
                                    }
                                },
                            }
                        }
                    },
                }
            }
        },
        Ok((p1, false)) => {
            if let Ok((p2, false)) = next_is(p2, TokenKind::OpenParen) {
                if found.len() >= MAX_MATCH_ALTERNATIVES {
                } else {
                    parsed_pattern_beside(p1, p2, depth1 + 1, depth2 + 1);
                }
            }
        },
    }
}

proof fn parsed_group_beside(
    p1: Parsing,
    p2: Parsing,
    found: Seq<Pattern>,
    binding: Option<Seq<char>>,
    depth1: int,
    depth2: int,
)
    ensures
        beside(p1, p2) ==> (
        parsed_group(p1, found, binding, depth1) matches Ok((q1, v1))
            ==> (match parsed_group(p2, found, binding, depth2) {
            Ok((q2, v2)) => beside(q1, q2) && v2 == v1,
            Err(error) => too_deep(error) && depth1 != depth2,
        })),
    decreases room(depth1), 0int, remaining(p1),
{
    reveal_strlit("|");
    if let Ok((q1, false)) = next_is(p1, TokenKind::CloseParen) {
        nothing_left_is_no_alternative(q1, found, binding, depth1 + 1);
    }
    if level_refused(depth1) {
    } else {
        next_is_beside(p1, p2, TokenKind::CloseParen);
        match next_is(p1, TokenKind::CloseParen) {
            Err(error1) => {},
            Ok((q1, true)) => {},
            Ok((q1, false)) => {
                if let Ok((q2, false)) = next_is(p2, TokenKind::CloseParen) {
                    parsed_alternatives_beside(q1, q2, found, binding, depth1 + 1, depth2 + 1);
                    match parsed_alternatives(q1, found, binding, depth1 + 1) {
                        Err(error1) => {},
                        Ok((q1, found1)) => {
                            if let Ok((q2, found2)) = parsed_alternatives(q2, found, binding, depth2 + 1) {
                                next_operator_beside(q1, q2, "|"@);
                                match next_operator(q1, "|"@) {
                                    Err(error1) => {},
                                    Ok((q1, true)) => {
                                        if let Ok((q2, true)) = next_operator(q2, "|"@) {
                                            take_beside(q1, q2);
                                            match take(q1) {
                                                Err(error1) => {},
                                                Ok((q1, _)) => {
                                                    if let Ok((q2, _)) = take(q2) {
                                                        if advances(p1, q1) {
                                                            parsed_group_beside(
                                                                q1,
                                                                q2,
                                                                found1,
                                                                binding,
                                                                depth1,
                                                                depth2,
                                                            );
                                                        }
                                                    }
                                                },
                                            }
                                        }
                                    },
                                    Ok((q1, false)) => {
                                        if let Ok((q2, false)) = next_operator(q2, "|"@) {
                                            expect_kind_beside(
                                                q1,
                                                q2,
                                                TokenKind::CloseParen,
                                                ExpressionErrorKind::ExpectedCloseParen,
                                            );
                                        }
                                    },
                                }
                            }
                        },
                    }
                }
            },
        }
    }
}

proof fn push_comparison_beside(
    p1: Parsing,
    p2: Parsing,
    operator: BinaryOperator,
    scrutinee: ExprId,
    bound: ExprId,
)
    ensures
        beside(p1, p2) ==> (
        push_comparison(p1, operator, scrutinee, bound) matches Ok((q1, v1))
            ==> (match push_comparison(p2, operator, scrutinee, bound) {
            Ok((q2, v2)) => beside(q1, q2) && v2 == v1,
            Err(_) => false,
        })),
{
    push_across_beside(
        p1,
        p2,
        Form::Binary { operator, left: scrutinee, right: bound },
        scrutinee,
        bound,
    );
}

proof fn noted_range_beside(
    p1: Parsing,
    p2: Parsing,
    range: RangeValidation,
)
    ensures
        beside(p1, p2) ==> (
        noted_range(p1, range) matches Ok(q1) ==> (match noted_range(p2, range) {
            Ok(q2) => beside(q1, q2),
            Err(_) => false,
        })),
{
}

proof fn body_condition_beside(
    p1: Parsing,
    p2: Parsing,
    scrutinee: ExprId,
    body: PatternBody,
)
    ensures
        beside(p1, p2) ==> (
        body_condition(p1, scrutinee, body) matches Ok((q1, v1))
            ==> (match body_condition(p2, scrutinee, body) {
            Ok((q2, v2)) => beside(q1, q2) && v2 == v1,
            Err(_) => false,
        })),
{
    reveal(body_condition);
    match body {
        PatternBody::Wildcard => {
            match span_of(p1, scrutinee) {
                Err(error1) => {},
                Ok(span1) => {
                    if let Ok(span2) = span_of(p2, scrutinee) {
                        push_node_beside(p1, p2, Form::Bool(true), span1, span2);
                    }
                },
            }
        },
        PatternBody::Value(value1) => {
            if let PatternBody::Value(value2) = body {
                push_comparison_beside(p1, p2, BinaryOperator::Equal, scrutinee, value1);
            }
        },
        PatternBody::Range { start: start1, end: end1, inclusive: inclusive1 } => {
            if let PatternBody::Range { start: start2, end: end2, inclusive: inclusive2 } = body {
                noted_range_beside(
                    p1,
                    p2,
                    RangeValidation { scrutinee, start: start1, end: end1, inclusive: inclusive1 },
                );
                match noted_range(
            p1,
            RangeValidation { scrutinee, start: start1, end: end1, inclusive: inclusive1 },
        ) {
                    Err(error1) => {},
                    Ok(p1) => {
                        if let Ok(p2) = noted_range(
            p2,
            RangeValidation { scrutinee, start: start2, end: end2, inclusive: inclusive2 },
        ) {
                            match (start1, end1) {
                                (Some(start1), Some(end1)) => {
                                    if let (Some(start2), Some(end2)) = (start2, end2) {
                                        push_comparison_beside(
                                            p1,
                                            p2,
                                            BinaryOperator::GreaterEqual,
                                            scrutinee,
                                            start1,
                                        );
                                        match push_comparison(
                    p1,
                    BinaryOperator::GreaterEqual,
                    scrutinee,
                    start1,
                ) {
                                            Err(error1) => {},
                                            Ok((p1, lower1)) => {
                                                if let Ok((p2, lower2)) = push_comparison(
                    p2,
                    BinaryOperator::GreaterEqual,
                    scrutinee,
                    start2,
                ) {
                                                    push_comparison_beside(
                                                        p1,
                                                        p2,
                                                        upper_operator(inclusive1),
                                                        scrutinee,
                                                        end1,
                                                    );
                                                    match push_comparison(
                        p1,
                        upper_operator(inclusive1),
                        scrutinee,
                        end1,
                    ) {
                                                        Err(error1) => {},
                                                        Ok((p1, upper1)) => {
                                                            if let Ok((p2, upper2)) = push_comparison(
                        p2,
                        upper_operator(inclusive2),
                        scrutinee,
                        end2,
                    ) {
                                                                push_across_beside(
                                                                    p1,
                                                                    p2,
                                                                    Form::Binary {
                                operator: BinaryOperator::LogicalAnd,
                                left: lower1,
                                right: upper1,
                            },
                                                                    lower1,
                                                                    upper1,
                                                                );
                                                            }
                                                        },
                                                    }
                                                }
                                            },
                                        }
                                    }
                                },
                                (Some(start1), None) => {
                                    if let (Some(start2), None) = (start2, end2) {
                                        push_comparison_beside(
                                            p1,
                                            p2,
                                            BinaryOperator::GreaterEqual,
                                            scrutinee,
                                            start1,
                                        );
                                    }
                                },
                                (None, Some(end1)) => {
                                    if let (None, Some(end2)) = (start2, end2) {
                                        push_comparison_beside(
                                            p1,
                                            p2,
                                            upper_operator(inclusive1),
                                            scrutinee,
                                            end1,
                                        );
                                    }
                                },
                                (None, None) => {},
                            }
                        }
                    },
                }
            }
        },
    }
}

proof fn alternatives_condition_beside(
    p1: Parsing,
    p2: Parsing,
    scrutinee: ExprId,
    alternatives: Seq<Pattern>,
    count: int,
)
    ensures
        beside(p1, p2) ==> (
        alternatives_condition(p1, scrutinee, alternatives, count) matches Ok((q1, v1))
            ==> (match alternatives_condition(p2, scrutinee, alternatives, count) {
            Ok((q2, v2)) => beside(q1, q2) && v2 == v1,
            Err(_) => false,
        })),
    decreases count,
{
    reveal(alternatives_condition);
    if count <= 0 {
    } else {
        alternatives_condition_beside(p1, p2, scrutinee, alternatives, count - 1);
        match alternatives_condition(p1, scrutinee, alternatives, count - 1) {
            Err(error1) => {},
            Ok((p1, before1)) => {
                if let Ok((p2, before2)) = alternatives_condition(p2, scrutinee, alternatives, count - 1) {
                    body_condition_beside(
                        p1,
                        p2,
                        scrutinee,
                        deciding_body(alternatives[count - 1]),
                    );
                    match body_condition(
                p1,
                scrutinee,
                deciding_body(alternatives[count - 1]),
            ) {
                        Err(error1) => {},
                        Ok((p1, last1)) => {
                            if let Ok((p2, last2)) = body_condition(
                p2,
                scrutinee,
                deciding_body(alternatives[count - 1]),
            ) {
                                match before1 {
                                    None => {},
                                    Some(previous1) => {
                                        if let Some(previous2) = before2 {
                                            push_across_beside(
                                                p1,
                                                p2,
                                                Form::Binary {
                            operator: BinaryOperator::LogicalOr,
                            left: previous1,
                            right: last1,
                        },
                                                previous1,
                                                last1,
                                            );
                                        }
                                    },
                                }
                            }
                        },
                    }
                }
            },
        }
    }
}

proof fn decision_beside(
    p1: Parsing,
    p2: Parsing,
    scrutinee: ExprId,
    arms: Seq<Arm>,
    count: int,
    otherwise: ExprId,
    span1: Span,
    span2: Span,
    match_span1: Span,
    match_span2: Span,
)
    ensures
        beside(p1, p2) && span2 == moved_span(span1) && match_span2 == moved_span(match_span1) ==> (
        decision(p1, scrutinee, arms, count, otherwise, span1, match_span1) matches Ok((q1, v1))
            ==> (match decision(p2, scrutinee, arms, count, otherwise, span2, match_span2) {
            Ok((q2, v2)) => beside(q1, q2) && v2 == v1,
            Err(_) => false,
        })),
    decreases count,
{
    reveal(decision);
    if count <= 0 {
    } else {
        let arm1 = arms[count - 1];
        let arm2 = arms[count - 1];
        alternatives_condition_beside(
            p1,
            p2,
            scrutinee,
            arm1.alternatives,
            arm1.alternatives.len() as int,
        );
        match alternatives_condition(
            p1,
            scrutinee,
            arm1.alternatives,
            arm1.alternatives.len() as int,
        ) {
            Err(error1) => {},
            Ok((p1, None)) => {},
            Ok((p1, Some(condition1))) => {
                if let Ok((p2, Some(condition2))) = alternatives_condition(
            p2,
            scrutinee,
            arm2.alternatives,
            arm2.alternatives.len() as int,
        ) {
                    guarded_condition_beside(p1, p2, condition1, arm1.guard);
                    match guarded_condition(p1, condition1, arm1.guard) {
                        Err(error1) => {},
                        Ok((p1, condition1)) => {
                            if let Ok((p2, condition2)) = guarded_condition(p2, condition2, arm2.guard) {
                                push_node_beside(
                                    p1,
                                    p2,
                                    Form::If { condition: condition1, then_branch: arm1.branch, else_branch: otherwise },
                                    span1,
                                    span2,
                                );
                                match push_node(
                    p1,
                    Form::If { condition: condition1, then_branch: arm1.branch, else_branch: otherwise },
                    span1,
                ) {
                                    Err(error1) => {},
                                    Ok((p1, next1)) => {
                                        if let Ok((p2, next2)) = push_node(
                    p2,
                    Form::If { condition: condition2, then_branch: arm2.branch, else_branch: otherwise },
                    span2,
                ) {
                                            decision_beside(
                                                p1,
                                                p2,
                                                scrutinee,
                                                arms,
                                                count - 1,
                                                next1,
                                                span1,
                                                span2,
                                                match_span1,
                                                match_span2,
                                            );
                                        }
                                    },
                                }
                            }
                        },
                    }
                }
            },
        }
    }
}

proof fn guarded_condition_beside(
    p1: Parsing,
    p2: Parsing,
    condition: ExprId,
    guard: Option<ExprId>,
)
    ensures
        beside(p1, p2) ==> (
        guarded_condition(p1, condition, guard) matches Ok((q1, v1))
            ==> (match guarded_condition(p2, condition, guard) {
            Ok((q2, v2)) => beside(q1, q2) && v2 == v1,
            Err(_) => false,
        })),
{
    match guard {
        None => {},
        Some(guard1) => {
            if let Some(guard2) = guard {
                push_across_beside(
                    p1,
                    p2,
                    Form::Binary { operator: BinaryOperator::LogicalAnd, left: condition, right: guard1 },
                    condition,
                    guard1,
                );
            }
        },
    }
}

proof fn sequenced_beside(
    p1: Parsing,
    p2: Parsing,
    statements: Seq<ExprId>,
    count: int,
    tail: ExprId,
)
    ensures
        beside(p1, p2) ==> (
        sequenced(p1, statements, count, tail) matches Ok((q1, v1))
            ==> (match sequenced(p2, statements, count, tail) {
            Ok((q2, v2)) => beside(q1, q2) && v2 == v1,
            Err(_) => false,
        })),
    decreases count,
{
    reveal(sequenced);
    if count <= 0 {
    } else {
        let first1 = statements[count - 1];
        let first2 = statements[count - 1];
        push_across_beside(p1, p2, Form::Sequence { first: first1, then: tail }, first1, tail);
        match push_across(p1, Form::Sequence { first: first1, then: tail }, first1, tail) {
            Err(error1) => {},
            Ok((p1, next1)) => {
                if let Ok((p2, next2)) = push_across(p2, Form::Sequence { first: first2, then: tail }, first2, tail) {
                    sequenced_beside(p1, p2, statements, count - 1, next1);
                }
            },
        }
    }
}

proof fn loop_exits_beside(
    p1: Parsing,
    p2: Parsing,
    conditions: Seq<ExprId>,
    branches: Seq<ExprId>,
    count: int,
    otherwise: ExprId,
    span1: Span,
    span2: Span,
)
    ensures
        beside(p1, p2) && span2 == moved_span(span1) ==> (
        loop_exits(p1, conditions, branches, count, otherwise, span1) matches Ok((q1, v1))
            ==> (match loop_exits(p2, conditions, branches, count, otherwise, span2) {
            Ok((q2, v2)) => beside(q1, q2) && v2 == v1,
            Err(_) => false,
        })),
    decreases count,
{
    reveal(loop_exits);
    if count <= 0 {
    } else {
        push_node_beside(
            p1,
            p2,
            Form::LoopBreakIf {
                condition: conditions[count - 1],
                then_branch: branches[count - 1],
                else_branch: otherwise,
            },
            span1,
            span2,
        );
        match push_node(
            p1,
            Form::LoopBreakIf {
                condition: conditions[count - 1],
                then_branch: branches[count - 1],
                else_branch: otherwise,
            },
            span1,
        ) {
            Err(error1) => {},
            Ok((p1, next1)) => {
                if let Ok((p2, next2)) = push_node(
            p2,
            Form::LoopBreakIf {
                condition: conditions[count - 1],
                then_branch: branches[count - 1],
                else_branch: otherwise,
            },
            span2,
        ) {
                    loop_exits_beside(
                        p1,
                        p2,
                        conditions,
                        branches,
                        count - 1,
                        next1,
                        span1,
                        span2,
                    );
                }
            },
        }
    }
}

proof fn parsed_break_target_beside(
    p1: Parsing,
    p2: Parsing,
    current1: Option<Word>,
    current2: Option<Word>,
    enclosing1: Option<Word>,
    enclosing2: Option<Word>,
)
    ensures
        beside(p1, p2) && current2 == moved_option(current1) && enclosing2 == moved_option(enclosing1) ==> (
        parsed_break_target(p1, current1, enclosing1) matches Ok((q1, v1))
            ==> (match parsed_break_target(p2, current2, enclosing2) {
            Ok((q2, v2)) => beside(q1, q2) && v2 == v1,
            Err(_) => false,
        })),
{
    reveal(parsed_break_target);
    next_is_beside(p1, p2, TokenKind::Lifetime);
    match next_is(p1, TokenKind::Lifetime) {
        Err(error1) => {},
        Ok((p1, false)) => {},
        Ok((p1, true)) => {
            if let Ok((p2, true)) = next_is(p2, TokenKind::Lifetime) {
                take_beside(p1, p2);
            }
        },
    }
}

proof fn expect_break_target_beside(
    p1: Parsing,
    p2: Parsing,
    current1: Option<Word>,
    current2: Option<Word>,
    enclosing1: Option<Word>,
    enclosing2: Option<Word>,
    target: ValueLoopControlTarget,
    word1: Option<Word>,
    word2: Option<Word>,
)
    ensures
        beside(p1, p2) && current2 == moved_option(current1) && enclosing2 == moved_option(enclosing1) && word2 == moved_option(word1) ==> (
        expect_break_target(p1, current1, enclosing1, target, word1) matches Ok(q1)
            ==> (match expect_break_target(p2, current2, enclosing2, target, word2) {
            Ok(q2) => beside(q1, q2),
            Err(_) => false,
        })),
{
    reveal(expect_break_target);
    parsed_break_target_beside(p1, p2, current1, current2, enclosing1, enclosing2);
}

proof fn skipped_body_beside(
    p1: Parsing,
    p2: Parsing,
    depth: int,
)
    ensures
        beside(p1, p2) ==> (
        skipped_body(p1, depth) matches Ok(q1) ==> (match skipped_body(p2, depth) {
            Ok(q2) => beside(q1, q2),
            Err(_) => false,
        })),
    decreases remaining(p1),
{
    reveal(skipped_body);
    if depth <= 0 {
    } else {
        take_beside(p1, p2);
        match take(p1) {
            Err(error1) => {},
            Ok((q1, None)) => {},
            Ok((q1, Some(word1))) => {
                if let Ok((q2, Some(word2))) = take(p2) {
                    if !advances(p1, q1) {
                    } else {
                        if word1.kind == TokenKind::OpenBrace {
                            if depth == MAX_EXPRESSION_DEPTH {
                            } else {
                                skipped_body_beside(q1, q2, depth + 1);
                            }
                        } else {
                            if word1.kind == TokenKind::CloseBrace {
                                skipped_body_beside(q1, q2, depth - 1);
                            } else {
                                skipped_body_beside(q1, q2, depth);
                            }
                        }
                    }
                }
            },
        }
    }
}

proof fn parsed_expression_beside(
    p1: Parsing,
    p2: Parsing,
    minimum: int,
    depth1: int,
    depth2: int,
)
    ensures
        beside(p1, p2) ==> (
        parsed_expression(p1, minimum, depth1) matches Ok((q1, v1))
            ==> (match parsed_expression(p2, minimum, depth2) {
            Ok((q2, v2)) => beside(q1, q2) && v2 == v1,
            Err(error) => too_deep(error) && depth1 != depth2,
        })),
    decreases room(depth1), 20int, 0int,
{
    parsed_expression_rule(p1, minimum, depth1);
    parsed_expression_rule(p2, minimum, depth2);
    if level_refused(depth1) {
    } else {
        parsed_cast_beside(p1, p2, depth1 + 1, depth2 + 1);
        match parsed_cast(p1, depth1 + 1) {
            Err(error1) => {},
            Ok((p1, left1)) => {
                if let Ok((p2, left2)) = parsed_cast(p2, depth2 + 1) {
                    parsed_operators_beside(p1, p2, left1, minimum, depth1, depth2);
                }
            },
        }
    }
}

proof fn parsed_operators_beside(
    p1: Parsing,
    p2: Parsing,
    left: ExprId,
    minimum: int,
    depth1: int,
    depth2: int,
)
    ensures
        beside(p1, p2) ==> (
        parsed_operators(p1, left, minimum, depth1) matches Ok((q1, v1))
            ==> (match parsed_operators(p2, left, minimum, depth2) {
            Ok((q2, v2)) => beside(q1, q2) && v2 == v1,
            Err(error) => too_deep(error) && depth1 != depth2,
        })),
    decreases room(depth1), 10int, remaining(p1),
{
    parsed_operators_rule(p1, left, minimum, depth1);
    parsed_operators_rule(p2, left, minimum, depth2);
    closing_is_no_operator();
    if level_refused(depth1) {
    } else {
        peek_beside(p1, p2);
        match peek(p1) {
            Err(error1) => {},
            Ok(q1) => {
                if let Ok(q2) = peek(p2) {
                    match front(q1) {
                        None => {},
                        Some(word1) => {
                            if let Some(word2) = front(q2) {
                                match operator_named(word1.text) {
                                    None => {},
                                    Some((operator1, precedence1)) => {
                                        if let Some((operator2, precedence2)) = operator_named(word2.text) {
                                            if precedence1 < minimum {
                                            } else {
                                                take_beside(q1, q2);
                                                match take(q1) {
                                                    Err(error1) => {},
                                                    Ok((q1, _)) => {
                                                        if let Ok((q2, _)) = take(q2) {
                                                            parsed_expression_beside(
                                                                q1,
                                                                q2,
                                                                precedence1 + 1,
                                                                depth1 + 1,
                                                                depth2 + 1,
                                                            );
                                                            match parsed_expression(q1, precedence1 + 1, depth1 + 1) {
                                                                Err(error1) => {},
                                                                Ok((q1, right1)) => {
                                                                    if let Ok((q2, right2)) = parsed_expression(q2, precedence2 + 1, depth2 + 1) {
                                                                        push_across_beside(
                                                                            q1,
                                                                            q2,
                                                                            Form::Binary { operator: operator1, left, right: right1 },
                                                                            left,
                                                                            right1,
                                                                        );
                                                                        match push_across(
                                    q1,
                                    Form::Binary { operator: operator1, left, right: right1 },
                                    left,
                                    right1,
                                ) {
                                                                            Err(error1) => {},
                                                                            Ok((q1, both1)) => {
                                                                                if let Ok((q2, both2)) = push_across(
                                    q2,
                                    Form::Binary { operator: operator2, left, right: right2 },
                                    left,
                                    right2,
                                ) {
                                                                                    if advances(p1, q1) {
                                                                                        parsed_operators_beside(
                                                                                            q1,
                                                                                            q2,
                                                                                            both1,
                                                                                            minimum,
                                                                                            depth1,
                                                                                            depth2,
                                                                                        );
                                                                                    }
                                                                                }
                                                                            },
                                                                        }
                                                                    }
                                                                },
                                                            }
                                                        }
                                                    },
                                                }
                                            }
                                        }
                                    },
                                }
                            }
                        },
                    }
                }
            },
        }
    }
}

proof fn parsed_cast_beside(
    p1: Parsing,
    p2: Parsing,
    depth1: int,
    depth2: int,
)
    ensures
        beside(p1, p2) ==> (
        parsed_cast(p1, depth1) matches Ok((q1, v1)) ==> (match parsed_cast(p2, depth2) {
            Ok((q2, v2)) => beside(q1, q2) && v2 == v1,
            Err(error) => too_deep(error) && depth1 != depth2,
        })),
    decreases room(depth1), 20int, 0int,
{
    parsed_cast_rule(p1, depth1);
    parsed_cast_rule(p2, depth2);
    if level_refused(depth1) {
    } else {
        parsed_unary_beside(p1, p2, depth1 + 1, depth2 + 1);
        match parsed_unary(p1, depth1 + 1) {
            Err(error1) => {},
            Ok((p1, operand1)) => {
                if let Ok((p2, operand2)) = parsed_unary(p2, depth2 + 1) {
                    parsed_casts_beside(p1, p2, operand1);
                }
            },
        }
    }
}

proof fn parsed_casts_beside(
    p1: Parsing,
    p2: Parsing,
    operand: ExprId,
)
    ensures
        beside(p1, p2) ==> (
        parsed_casts(p1, operand) matches Ok((q1, v1)) ==> (match parsed_casts(p2, operand) {
            Ok((q2, v2)) => beside(q1, q2) && v2 == v1,
            Err(_) => false,
        })),
    decreases remaining(p1),
{
    reveal_strlit("as");
    next_reads_beside(p1, p2, "as"@);
    match next_reads(p1, "as"@) {
        Err(error1) => {},
        Ok((q1, false)) => {},
        Ok((q1, true)) => {
            if let Ok((q2, true)) = next_reads(p2, "as"@) {
                take_beside(q1, q2);
                match take(q1) {
                    Err(error1) => {},
                    Ok((q1, _)) => {
                        if let Ok((q2, _)) = take(q2) {
                            expect_kind_beside(
                                q1,
                                q2,
                                TokenKind::Identifier,
                                ExpressionErrorKind::ExpectedCastType,
                            );
                            match expect_kind(
                q1,
                TokenKind::Identifier,
                ExpressionErrorKind::ExpectedCastType,
            ) {
                                Err(error1) => {},
                                Ok((q1, word1)) => {
                                    if let Ok((q2, word2)) = expect_kind(
                q2,
                TokenKind::Identifier,
                ExpressionErrorKind::ExpectedCastType,
            ) {
                                        match integer_type_named(word1.text) {
                                            None => {},
                                            Some(target1) => {
                                                if let Some(target2) = integer_type_named(word2.text) {
                                                    match span_of(q1, operand) {
                                                        Err(error1) => {},
                                                        Ok(span1) => {
                                                            if let Ok(span2) = span_of(q2, operand) {
                                                                push_node_beside(
                                                                    q1,
                                                                    q2,
                                                                    Form::Cast { operand, target: target1 },
                                                                    Span { start: span1.start, end: word1.span.end },
                                                                    Span { start: span2.start, end: word2.span.end },
                                                                );
                                                                match push_node(
                            q1,
                            Form::Cast { operand, target: target1 },
                            Span { start: span1.start, end: word1.span.end },
                        ) {
                                                                    Err(error1) => {},
                                                                    Ok((q1, cast1)) => {
                                                                        if let Ok((q2, cast2)) = push_node(
                            q2,
                            Form::Cast { operand, target: target2 },
                            Span { start: span2.start, end: word2.span.end },
                        ) {
                                                                            if advances(p1, q1) {
                                                                                parsed_casts_beside(
                                                                                    q1,
                                                                                    q2,
                                                                                    cast1,
                                                                                );
                                                                            }
                                                                        }
                                                                    },
                                                                }
                                                            }
                                                        },
                                                    }
                                                }
                                            },
                                        }
                                    }
                                },
                            }
                        }
                    },
                }
            }
        },
    }
}

proof fn parsed_unary_beside(
    p1: Parsing,
    p2: Parsing,
    depth1: int,
    depth2: int,
)
    ensures
        beside(p1, p2) ==> (
        parsed_unary(p1, depth1) matches Ok((q1, v1)) ==> (match parsed_unary(p2, depth2) {
            Ok((q2, v2)) => beside(q1, q2) && v2 == v1,
            Err(error) => too_deep(error) && depth1 != depth2,
        })),
    decreases room(depth1), 20int, 0int,
{
    parsed_unary_rule(p1, depth1);
    parsed_unary_rule(p2, depth2);
    closing_is_no_operator();
    if level_refused(depth1) {
    } else {
        peek_beside(p1, p2);
        match peek(p1) {
            Err(error1) => {},
            Ok(p1) => {
                if let Ok(p2) = peek(p2) {
                    match front(p1) {
                        None => {
                            parsed_postfix_beside(p1, p2, depth1 + 1, depth2 + 1);
                        },
                        Some(word1) => {
                            if let Some(word2) = front(p2) {
                                match prefix_operator(word1.text) {
                                    None => {
                                        parsed_postfix_beside(p1, p2, depth1 + 1, depth2 + 1);
                                    },
                                    Some(operator1) => {
                                        if let Some(operator2) = prefix_operator(word2.text) {
                                            take_beside(p1, p2);
                                            match take(p1) {
                                                Err(error1) => {},
                                                Ok((p1, _)) => {
                                                    if let Ok((p2, _)) = take(p2) {
                                                        parsed_mutability_beside(
                                                            p1,
                                                            p2,
                                                            operator1,
                                                        );
                                                        match parsed_mutability(p1, operator1) {
                                                            Err(error1) => {},
                                                            Ok((p1, operator1)) => {
                                                                if let Ok((p2, operator2)) = parsed_mutability(p2, operator2) {
                                                                    parsed_unary_beside(
                                                                        p1,
                                                                        p2,
                                                                        depth1 + 1,
                                                                        depth2 + 1,
                                                                    );
                                                                    match parsed_unary(p1, depth1 + 1) {
                                                                        Err(error1) => {},
                                                                        Ok((p1, operand1)) => {
                                                                            if let Ok((p2, operand2)) = parsed_unary(p2, depth2 + 1) {
                                                                                push_from_beside(
                                                                                    p1,
                                                                                    p2,
                                                                                    Form::Unary { operator: operator1, operand: operand1 },
                                                                                    word1.span.start,
                                                                                    word2.span.start,
                                                                                    operand1,
                                                                                );
                                                                            }
                                                                        },
                                                                    }
                                                                }
                                                            },
                                                        }
                                                    }
                                                },
                                            }
                                        }
                                    },
                                }
                            }
                        },
                    }
                }
            },
        }
    }
}

proof fn parsed_mutability_beside(
    p1: Parsing,
    p2: Parsing,
    operator: UnaryOperator,
)
    ensures
        beside(p1, p2) ==> (
        parsed_mutability(p1, operator) matches Ok((q1, v1))
            ==> (match parsed_mutability(p2, operator) {
            Ok((q2, v2)) => beside(q1, q2) && v2 == v1,
            Err(_) => false,
        })),
{
    reveal_strlit("mut");
    if operator != UnaryOperator::AddressOf {
    } else {
        next_reads_beside(p1, p2, "mut"@);
        match next_reads(p1, "mut"@) {
            Err(error1) => {},
            Ok((p1, false)) => {},
            Ok((p1, true)) => {
                if let Ok((p2, true)) = next_reads(p2, "mut"@) {
                    take_beside(p1, p2);
                }
            },
        }
    }
}

proof fn parsed_postfix_beside(
    p1: Parsing,
    p2: Parsing,
    depth1: int,
    depth2: int,
)
    ensures
        beside(p1, p2) ==> (
        parsed_postfix(p1, depth1) matches Ok((q1, v1)) ==> (match parsed_postfix(p2, depth2) {
            Ok((q2, v2)) => beside(q1, q2) && v2 == v1,
            Err(error) => too_deep(error) && depth1 != depth2,
        })),
    decreases room(depth1), 110int, 0int,
{
    parsed_postfix_rule(p1, depth1);
    parsed_postfix_rule(p2, depth2);
    parsed_atom_beside(p1, p2, depth1, depth2);
    match parsed_atom(p1, depth1) {
        Err(error1) => {},
        Ok((p1, base1)) => {
            if let Ok((p2, base2)) = parsed_atom(p2, depth2) {
                parsed_suffixes_beside(p1, p2, base1, depth1, depth2);
            }
        },
    }
}

proof fn parsed_suffixes_beside(
    p1: Parsing,
    p2: Parsing,
    base: ExprId,
    depth1: int,
    depth2: int,
)
    ensures
        beside(p1, p2) ==> (
        parsed_suffixes(p1, base, depth1) matches Ok((q1, v1))
            ==> (match parsed_suffixes(p2, base, depth2) {
            Ok((q2, v2)) => beside(q1, q2) && v2 == v1,
            Err(error) => too_deep(error) && depth1 != depth2,
        })),
    decreases room(depth1), 109int, remaining(p1),
{
    parsed_suffixes_rule(p1, base, depth1);
    parsed_suffixes_rule(p2, base, depth2);
    peek_beside(p1, p2);
    match peek(p1) {
        Err(error1) => {},
        Ok(q1) => {
            if let Ok(q2) = peek(p2) {
                if is_kind(front(q1), TokenKind::OpenBracket) {
                    take_beside(q1, q2);
                    match take(q1) {
                        Err(error1) => {},
                        Ok((q1, _)) => {
                            if let Ok((q2, _)) = take(q2) {
                                parsed_index_beside(q1, q2, base, depth1, depth2);
                                match parsed_index(q1, base, depth1) {
                                    Err(error1) => {},
                                    Ok((q1, indexed1)) => {
                                        if let Ok((q2, indexed2)) = parsed_index(q2, base, depth2) {
                                            if advances(p1, q1) {
                                                parsed_suffixes_beside(
                                                    q1,
                                                    q2,
                                                    indexed1,
                                                    depth1,
                                                    depth2,
                                                );
                                            }
                                        }
                                    },
                                }
                            }
                        },
                    }
                } else {
                    if is_kind(front(q1), TokenKind::Dot) {
                        take_beside(q1, q2);
                        match take(q1) {
                            Err(error1) => {},
                            Ok((r1, _)) => {
                                if let Ok((r2, _)) = take(q2) {
                                    next_is_beside(r1, r2, TokenKind::Identifier);
                                    match next_is(r1, TokenKind::Identifier) {
                                        Err(error1) => {},
                                        Ok((_, false)) => {},
                                        Ok((r1, true)) => {
                                            if let Ok((r2, true)) = next_is(r2, TokenKind::Identifier) {
                                                parsed_method_beside(r1, r2, base, depth1, depth2);
                                                match parsed_method(r1, base, depth1) {
                                                    Err(error1) => {},
                                                    Ok((r1, called1)) => {
                                                        if let Ok((r2, called2)) = parsed_method(r2, base, depth2) {
                                                            if advances(p1, r1) {
                                                                parsed_suffixes_beside(
                                                                    r1,
                                                                    r2,
                                                                    called1,
                                                                    depth1,
                                                                    depth2,
                                                                );
                                                            }
                                                        }
                                                    },
                                                }
                                            }
                                        },
                                    }
                                }
                            },
                        }
                    }
                }
            }
        },
    }
}

proof fn parsed_index_beside(
    p1: Parsing,
    p2: Parsing,
    base: ExprId,
    depth1: int,
    depth2: int,
)
    ensures
        beside(p1, p2) ==> (
        parsed_index(p1, base, depth1) matches Ok((q1, v1))
            ==> (match parsed_index(p2, base, depth2) {
            Ok((q2, v2)) => beside(q1, q2) && v2 == v1,
            Err(error) => too_deep(error) && depth1 != depth2,
        })),
    decreases room(depth1), 108int, 0int,
{
    parsed_index_rule(p1, base, depth1);
    parsed_index_rule(p2, base, depth2);
    next_is_beside(p1, p2, TokenKind::Dot);
    match next_is(p1, TokenKind::Dot) {
        Err(error1) => {},
        Ok((p1, true)) => {
            if let Ok((p2, true)) = next_is(p2, TokenKind::Dot) {
                parsed_index_range_beside(p1, p2, base, None, depth1, depth2);
            }
        },
        Ok((p1, false)) => {
            if let Ok((p2, false)) = next_is(p2, TokenKind::Dot) {
                parsed_expression_beside(p1, p2, 0, depth1 + 1, depth2 + 1);
                match parsed_expression(p1, 0, depth1 + 1) {
                    Err(error1) => {},
                    Ok((p1, index1)) => {
                        if let Ok((p2, index2)) = parsed_expression(p2, 0, depth2 + 1) {
                            next_is_beside(p1, p2, TokenKind::Dot);
                            match next_is(p1, TokenKind::Dot) {
                                Err(error1) => {},
                                Ok((p1, true)) => {
                                    if let Ok((p2, true)) = next_is(p2, TokenKind::Dot) {
                                        parsed_index_range_beside(
                                            p1,
                                            p2,
                                            base,
                                            Some(index1),
                                            depth1,
                                            depth2,
                                        );
                                    }
                                },
                                Ok((p1, false)) => {
                                    if let Ok((p2, false)) = next_is(p2, TokenKind::Dot) {
                                        expect_kind_beside(
                                            p1,
                                            p2,
                                            TokenKind::CloseBracket,
                                            ExpressionErrorKind::ExpectedCloseBracket,
                                        );
                                        match expect_kind(
                    p1,
                    TokenKind::CloseBracket,
                    ExpressionErrorKind::ExpectedCloseBracket,
                ) {
                                            Err(error1) => {},
                                            Ok((p1, close1)) => {
                                                if let Ok((p2, close2)) = expect_kind(
                    p2,
                    TokenKind::CloseBracket,
                    ExpressionErrorKind::ExpectedCloseBracket,
                ) {
                                                    push_to_beside(
                                                        p1,
                                                        p2,
                                                        Form::Index { base, index: index1 },
                                                        base,
                                                        close1,
                                                        close2,
                                                    );
                                                }
                                            },
                                        }
                                    }
                                },
                            }
                        }
                    },
                }
            }
        },
    }
}

proof fn push_to_beside(
    p1: Parsing,
    p2: Parsing,
    form: Form,
    first: ExprId,
    last1: Word,
    last2: Word,
)
    ensures
        beside(p1, p2) && last2 == moved_word(last1) ==> (
        push_to(p1, form, first, last1) matches Ok((q1, v1))
            ==> (match push_to(p2, form, first, last2) {
            Ok((q2, v2)) => beside(q1, q2) && v2 == v1,
            Err(_) => false,
        })),
{
    match span_of(p1, first) {
        Err(error1) => {},
        Ok(span1) => {
            if let Ok(span2) = span_of(p2, first) {
                push_node_beside(
                    p1,
                    p2,
                    form,
                    Span { start: span1.start, end: last1.span.end },
                    Span { start: span2.start, end: last2.span.end },
                );
            }
        },
    }
}

proof fn parsed_index_range_beside(
    p1: Parsing,
    p2: Parsing,
    base: ExprId,
    start: Option<ExprId>,
    depth1: int,
    depth2: int,
)
    ensures
        beside(p1, p2) ==> (
        parsed_index_range(p1, base, start, depth1) matches Ok((q1, v1))
            ==> (match parsed_index_range(p2, base, start, depth2) {
            Ok((q2, v2)) => beside(q1, q2) && v2 == v1,
            Err(error) => too_deep(error) && depth1 != depth2,
        })),
    decreases room(depth1), 107int, 0int,
{
    parsed_index_range_rule(p1, base, start, depth1);
    parsed_index_range_rule(p2, base, start, depth2);
    reveal_strlit("=");
    take_beside(p1, p2);
    match take(p1) {
        Err(error1) => {},
        Ok((p1, _)) => {
            if let Ok((p2, _)) = take(p2) {
                expect_kind_beside(
                    p1,
                    p2,
                    TokenKind::Dot,
                    ExpressionErrorKind::ExpectedExpression,
                );
                match expect_kind(p1, TokenKind::Dot, ExpressionErrorKind::ExpectedExpression) {
                    Err(error1) => {},
                    Ok((p1, _)) => {
                        if let Ok((p2, _)) = expect_kind(p2, TokenKind::Dot, ExpressionErrorKind::ExpectedExpression) {
                            next_operator_beside(p1, p2, "="@);
                            match next_operator(p1, "="@) {
                                Err(error1) => {},
                                Ok((p1, true)) => {
                                    if let Ok((p2, true)) = next_operator(p2, "="@) {
                                        take_beside(p1, p2);
                                        match take(p1) {
                                            Err(error1) => {},
                                            Ok((p1, _)) => {
                                                if let Ok((p2, _)) = take(p2) {
                                                    parsed_expression_beside(
                                                        p1,
                                                        p2,
                                                        0,
                                                        depth1 + 1,
                                                        depth2 + 1,
                                                    );
                                                    match parsed_expression(p1, 0, depth1 + 1) {
                                                        Err(error1) => {},
                                                        Ok((p1, end1)) => {
                                                            if let Ok((p2, end2)) = parsed_expression(p2, 0, depth2 + 1) {
                                                                closed_index_range_beside(
                                                                    p1,
                                                                    p2,
                                                                    base,
                                                                    start,
                                                                    Some(end1),
                                                                    true,
                                                                );
                                                            }
                                                        },
                                                    }
                                                }
                                            },
                                        }
                                    }
                                },
                                Ok((p1, false)) => {
                                    if let Ok((p2, false)) = next_operator(p2, "="@) {
                                        if is_kind(front(p1), TokenKind::CloseBracket) {
                                            closed_index_range_beside(
                                                p1,
                                                p2,
                                                base,
                                                start,
                                                None,
                                                false,
                                            );
                                        } else {
                                            parsed_expression_beside(
                                                p1,
                                                p2,
                                                0,
                                                depth1 + 1,
                                                depth2 + 1,
                                            );
                                            match parsed_expression(p1, 0, depth1 + 1) {
                                                Err(error1) => {},
                                                Ok((p1, end1)) => {
                                                    if let Ok((p2, end2)) = parsed_expression(p2, 0, depth2 + 1) {
                                                        closed_index_range_beside(
                                                            p1,
                                                            p2,
                                                            base,
                                                            start,
                                                            Some(end1),
                                                            false,
                                                        );
                                                    }
                                                },
                                            }
                                        }
                                    }
                                },
                            }
                        }
                    },
                }
            }
        },
    }
}

proof fn closed_index_range_beside(
    p1: Parsing,
    p2: Parsing,
    base: ExprId,
    start: Option<ExprId>,
    end: Option<ExprId>,
    inclusive: bool,
)
    ensures
        beside(p1, p2) ==> (
        closed_index_range(p1, base, start, end, inclusive) matches Ok((q1, v1))
            ==> (match closed_index_range(p2, base, start, end, inclusive) {
            Ok((q2, v2)) => beside(q1, q2) && v2 == v1,
            Err(_) => false,
        })),
{
    expect_kind_beside(p1, p2, TokenKind::CloseBracket, ExpressionErrorKind::ExpectedCloseBracket);
    match expect_kind(
        p1,
        TokenKind::CloseBracket,
        ExpressionErrorKind::ExpectedCloseBracket,
    ) {
        Err(error1) => {},
        Ok((p1, close1)) => {
            if let Ok((p2, close2)) = expect_kind(
        p2,
        TokenKind::CloseBracket,
        ExpressionErrorKind::ExpectedCloseBracket,
    ) {
                push_to_beside(
                    p1,
                    p2,
                    Form::RangeIndex { base, start, end, inclusive },
                    base,
                    close1,
                    close2,
                );
            }
        },
    }
}

proof fn parsed_method_beside(
    p1: Parsing,
    p2: Parsing,
    base: ExprId,
    depth1: int,
    depth2: int,
)
    ensures
        beside(p1, p2) ==> (
        parsed_method(p1, base, depth1) matches Ok((q1, v1))
            ==> (match parsed_method(p2, base, depth2) {
            Ok((q2, v2)) => beside(q1, q2) && v2 == v1,
            Err(error) => too_deep(error) && depth1 != depth2,
        })),
    decreases room(depth1), 108int, 0int,
{
    parsed_method_rule(p1, base, depth1);
    parsed_method_rule(p2, base, depth2);
    reveal_strlit("is_char_boundary");
    expect_kind_beside(p1, p2, TokenKind::Identifier, ExpressionErrorKind::ExpectedIdentifier);
    match expect_kind(p1, TokenKind::Identifier, ExpressionErrorKind::ExpectedIdentifier) {
        Err(error1) => {},
        Ok((p1, name1)) => {
            if let Ok((p2, name2)) = expect_kind(p2, TokenKind::Identifier, ExpressionErrorKind::ExpectedIdentifier) {
                if name1.text == "is_char_boundary"@ {
                    expect_kind_beside(
                        p1,
                        p2,
                        TokenKind::OpenParen,
                        ExpressionErrorKind::ExpectedExpression,
                    );
                    match expect_kind(p1, TokenKind::OpenParen, ExpressionErrorKind::ExpectedExpression) {
                        Err(error1) => {},
                        Ok((p1, _)) => {
                            if let Ok((p2, _)) = expect_kind(p2, TokenKind::OpenParen, ExpressionErrorKind::ExpectedExpression) {
                                parsed_expression_beside(p1, p2, 0, depth1 + 1, depth2 + 1);
                                match parsed_expression(p1, 0, depth1 + 1) {
                                    Err(error1) => {},
                                    Ok((p1, index1)) => {
                                        if let Ok((p2, index2)) = parsed_expression(p2, 0, depth2 + 1) {
                                            expect_kind_beside(
                                                p1,
                                                p2,
                                                TokenKind::CloseParen,
                                                ExpressionErrorKind::ExpectedCloseParen,
                                            );
                                            match expect_kind(
                        p1,
                        TokenKind::CloseParen,
                        ExpressionErrorKind::ExpectedCloseParen,
                    ) {
                                                Err(error1) => {},
                                                Ok((p1, close1)) => {
                                                    if let Ok((p2, close2)) = expect_kind(
                        p2,
                        TokenKind::CloseParen,
                        ExpressionErrorKind::ExpectedCloseParen,
                    ) {
                                                        push_to_beside(
                                                            p1,
                                                            p2,
                                                            Form::StrIsCharBoundary { base, index: index1 },
                                                            base,
                                                            close1,
                                                            close2,
                                                        );
                                                    }
                                                },
                                            }
                                        }
                                    },
                                }
                            }
                        },
                    }
                } else {
                    match method_form(name1.text, base) {
                        None => {},
                        Some(form1) => {
                            if let Some(form2) = method_form(name2.text, base) {
                                expect_kind_beside(
                                    p1,
                                    p2,
                                    TokenKind::OpenParen,
                                    ExpressionErrorKind::ExpectedExpression,
                                );
                                match expect_kind(
                    p1,
                    TokenKind::OpenParen,
                    ExpressionErrorKind::ExpectedExpression,
                ) {
                                    Err(error1) => {},
                                    Ok((p1, _)) => {
                                        if let Ok((p2, _)) = expect_kind(
                    p2,
                    TokenKind::OpenParen,
                    ExpressionErrorKind::ExpectedExpression,
                ) {
                                            expect_kind_beside(
                                                p1,
                                                p2,
                                                TokenKind::CloseParen,
                                                ExpressionErrorKind::ExpectedCloseParen,
                                            );
                                            match expect_kind(
                        p1,
                        TokenKind::CloseParen,
                        ExpressionErrorKind::ExpectedCloseParen,
                    ) {
                                                Err(error1) => {},
                                                Ok((p1, close1)) => {
                                                    if let Ok((p2, close2)) = expect_kind(
                        p2,
                        TokenKind::CloseParen,
                        ExpressionErrorKind::ExpectedCloseParen,
                    ) {
                                                        push_to_beside(
                                                            p1,
                                                            p2,
                                                            form1,
                                                            base,
                                                            close1,
                                                            close2,
                                                        );
                                                    }
                                                },
                                            }
                                        }
                                    },
                                }
                            }
                        },
                    }
                }
            }
        },
    }
}

proof fn parsed_atom_beside(
    p1: Parsing,
    p2: Parsing,
    depth1: int,
    depth2: int,
)
    ensures
        beside(p1, p2) ==> (
        parsed_atom(p1, depth1) matches Ok((q1, v1)) ==> (match parsed_atom(p2, depth2) {
            Ok((q2, v2)) => beside(q1, q2) && v2 == v1,
            Err(error) => too_deep(error) && depth1 != depth2,
        })),
    decreases room(depth1), 104int, 0int,
{
    parsed_atom_rule(p1, depth1);
    parsed_atom_rule(p2, depth2);
    if level_refused(depth1) {
    } else {
        take_beside(p1, p2);
        match take(p1) {
            Err(error1) => {},
            Ok((p1, None)) => {},
            Ok((p1, Some(word1))) => {
                if let Ok((p2, Some(word2))) = take(p2) {
                    parsed_atom_from_beside(p1, p2, word1, word2, depth1, depth2);
                }
            },
        }
    }
}

proof fn parsed_atom_from_beside(
    p1: Parsing,
    p2: Parsing,
    word1: Word,
    word2: Word,
    depth1: int,
    depth2: int,
)
    ensures
        beside(p1, p2) && word2 == moved_word(word1) ==> (
        parsed_atom_from(p1, word1, depth1) matches Ok((q1, v1))
            ==> (match parsed_atom_from(p2, word2, depth2) {
            Ok((q2, v2)) => beside(q1, q2) && v2 == v1,
            Err(error) => too_deep(error) && depth1 != depth2,
        })),
    decreases room(depth1), 103int, 0int,
{
    parsed_atom_from_rule(p1, word1, depth1);
    parsed_atom_from_rule(p2, word2, depth2);
    reveal_strlit("break");
    reveal_strlit("const");
    reveal_strlit("if");
    reveal_strlit("loop");
    reveal_strlit("match");
    if word1.text == "break"@ {
        parsed_break_beside(p1, p2, word1, word2, depth1, depth2);
    } else {
        if word1.kind == TokenKind::Integer {
            push_integer_beside(p1, p2, word1, word2);
        } else {
            if word1.kind == TokenKind::Character {
                push_character_beside(p1, p2, word1, word2);
            } else {
                if word1.text == "if"@ {
                    parsed_if_beside(p1, p2, word1, word2, depth1 + 1, depth2 + 1);
                } else {
                    if word1.text == "match"@ {
                        parsed_match_beside(p1, p2, word1, word2, depth1 + 1, depth2 + 1);
                    } else {
                        if word1.text == "loop"@ {
                            parsed_loop_beside(
                                p1,
                                p2,
                                word1,
                                word2,
                                None,
                                None,
                                depth1 + 1,
                                depth2 + 1,
                            );
                        } else {
                            if word1.kind == TokenKind::Lifetime {
                                parsed_labelled_beside(p1, p2, word1, word2, depth1, depth2);
                            } else {
                                if word1.text == "const"@ {
                                    parsed_const_beside(
                                        p1,
                                        p2,
                                        word1,
                                        word2,
                                        depth1 + 1,
                                        depth2 + 1,
                                    );
                                } else {
                                    parsed_plain_atom_beside(p1, p2, word1, word2, depth1, depth2);
                                }
                            }
                        }
                    }
                }
            }
        }
    }
}

proof fn parsed_labelled_beside(
    p1: Parsing,
    p2: Parsing,
    label1: Word,
    label2: Word,
    depth1: int,
    depth2: int,
)
    ensures
        beside(p1, p2) && label2 == moved_word(label1) ==> (
        parsed_labelled(p1, label1, depth1) matches Ok((q1, v1))
            ==> (match parsed_labelled(p2, label2, depth2) {
            Ok((q2, v2)) => beside(q1, q2) && v2 == v1,
            Err(error) => too_deep(error) && depth1 != depth2,
        })),
    decreases room(depth1), 102int, 0int,
{
    parsed_labelled_rule(p1, label1, depth1);
    parsed_labelled_rule(p2, label2, depth2);
    reveal_strlit("loop");
    expect_kind_beside(p1, p2, TokenKind::Colon, ExpressionErrorKind::ExpectedColon);
    match expect_kind(p1, TokenKind::Colon, ExpressionErrorKind::ExpectedColon) {
        Err(error1) => {},
        Ok((p1, _)) => {
            if let Ok((p2, _)) = expect_kind(p2, TokenKind::Colon, ExpressionErrorKind::ExpectedColon) {
                expect_text_beside(p1, p2, "loop"@, ExpressionErrorKind::ExpectedExpression);
                match expect_text(p1, "loop"@, ExpressionErrorKind::ExpectedExpression) {
                    Err(error1) => {},
                    Ok((p1, word1)) => {
                        if let Ok((p2, word2)) = expect_text(p2, "loop"@, ExpressionErrorKind::ExpectedExpression) {
                            parsed_loop_beside(
                                p1,
                                p2,
                                word1,
                                word2,
                                Some(label1),
                                Some(label2),
                                depth1 + 1,
                                depth2 + 1,
                            );
                        }
                    },
                }
            }
        },
    }
}

proof fn parsed_plain_atom_beside(
    p1: Parsing,
    p2: Parsing,
    word1: Word,
    word2: Word,
    depth1: int,
    depth2: int,
)
    ensures
        beside(p1, p2) && word2 == moved_word(word1) ==> (
        parsed_plain_atom(p1, word1, depth1) matches Ok((q1, v1))
            ==> (match parsed_plain_atom(p2, word2, depth2) {
            Ok((q2, v2)) => beside(q1, q2) && v2 == v1,
            Err(error) => too_deep(error) && depth1 != depth2,
        })),
    decreases room(depth1), 101int, 0int,
{
    parsed_plain_atom_rule(p1, word1, depth1);
    parsed_plain_atom_rule(p2, word2, depth2);
    if word1.kind == TokenKind::Identifier {
        parsed_name_beside(p1, p2, word1, word2, depth1, depth2);
    } else {
        if word1.kind == TokenKind::OpenParen {
            parsed_parentheses_beside(p1, p2, word1, word2, depth1, depth2);
        } else {
            if word1.kind == TokenKind::OpenBracket {
                parsed_array_beside(p1, p2, word1, word2, depth1, depth2);
            } else {
                if word1.kind == TokenKind::OpenBrace {
                    parsed_block_beside(p1, p2, depth1 + 2, depth2 + 2);
                }
            }
        }
    }
}

proof fn parsed_break_beside(
    p1: Parsing,
    p2: Parsing,
    word1: Word,
    word2: Word,
    depth1: int,
    depth2: int,
)
    ensures
        beside(p1, p2) && word2 == moved_word(word1) ==> (
        parsed_break(p1, word1, depth1) matches Ok((q1, v1))
            ==> (match parsed_break(p2, word2, depth2) {
            Ok((q2, v2)) => beside(q1, q2) && v2 == v1,
            Err(error) => too_deep(error) && depth1 != depth2,
        })),
    decreases room(depth1), 90int, 0int,
{
    parsed_break_rule(p1, word1, depth1);
    parsed_break_rule(p2, word2, depth2);
    next_is_beside(p1, p2, TokenKind::CloseBrace);
    match next_is(p1, TokenKind::CloseBrace) {
        Err(error1) => {},
        Ok((p1, true)) => {
            if let Ok((p2, true)) = next_is(p2, TokenKind::CloseBrace) {
                push_node_beside(p1, p2, Form::Identifier(word1.text), word1.span, word2.span);
            }
        },
        Ok((p1, false)) => {
            if let Ok((p2, false)) = next_is(p2, TokenKind::CloseBrace) {
                parsed_nested_break_operand_beside(p1, p2, depth1 + 1, depth2 + 1);
                match parsed_nested_break_operand(p1, depth1 + 1) {
                    Err(error1) => {},
                    Ok((p1, operand1)) => {
                        if let Ok((p2, operand2)) = parsed_nested_break_operand(p2, depth2 + 1) {
                            push_from_beside(
                                p1,
                                p2,
                                Form::LoopBreak { operand: operand1 },
                                word1.span.start,
                                word2.span.start,
                                operand1,
                            );
                        }
                    },
                }
            }
        },
    }
}

proof fn push_unit_at_beside(
    p1: Parsing,
    p2: Parsing,
    word1: Word,
    word2: Word,
)
    ensures
        beside(p1, p2) && word2 == moved_word(word1) ==> (
        push_unit_at(p1, word1) matches Ok((q1, v1)) ==> (match push_unit_at(p2, word2) {
            Ok((q2, v2)) => beside(q1, q2) && v2 == v1,
            Err(_) => false,
        })),
{
    push_node_beside(
        p1,
        p2,
        Form::Unit,
        Span { start: word1.span.start, end: word1.span.start },
        Span { start: word2.span.start, end: word2.span.start },
    );
}

proof fn parsed_nested_break_operand_beside(
    p1: Parsing,
    p2: Parsing,
    depth1: int,
    depth2: int,
)
    ensures
        beside(p1, p2) ==> (
        parsed_nested_break_operand(p1, depth1) matches Ok((q1, v1))
            ==> (match parsed_nested_break_operand(p2, depth2) {
            Ok((q2, v2)) => beside(q1, q2) && v2 == v1,
            Err(error) => too_deep(error) && depth1 != depth2,
        })),
    decreases room(depth1), 30int, 0int,
{
    parsed_nested_break_operand_rule(p1, depth1);
    parsed_nested_break_operand_rule(p2, depth2);
    next_is_beside(p1, p2, TokenKind::Semicolon);
    match next_is(p1, TokenKind::Semicolon) {
        Err(error1) => {},
        Ok((p1, true)) => {
            if let Ok((p2, true)) = next_is(p2, TokenKind::Semicolon) {
                push_unit_at_beside(p1, p2, front(p1)->0, front(p2)->0);
            }
        },
        Ok((p1, false)) => {
            if let Ok((p2, false)) = next_is(p2, TokenKind::Semicolon) {
                parsed_expression_beside(p1, p2, 0, depth1 + 1, depth2 + 1);
            }
        },
    }
}

proof fn parsed_name_beside(
    p1: Parsing,
    p2: Parsing,
    word1: Word,
    word2: Word,
    depth1: int,
    depth2: int,
)
    ensures
        beside(p1, p2) && word2 == moved_word(word1) ==> (
        parsed_name(p1, word1, depth1) matches Ok((q1, v1))
            ==> (match parsed_name(p2, word2, depth2) {
            Ok((q2, v2)) => beside(q1, q2) && v2 == v1,
            Err(error) => too_deep(error) && depth1 != depth2,
        })),
    decreases room(depth1), 90int, 0int,
{
    parsed_name_rule(p1, word1, depth1);
    parsed_name_rule(p2, word2, depth2);
    reveal_strlit("Default");
    if word1.text == "Default"@ {
        next_is_beside(p1, p2, TokenKind::PathSeparator);
        match next_is(p1, TokenKind::PathSeparator) {
            Err(error1) => {},
            Ok((p1, true)) => {
                if let Ok((p2, true)) = next_is(p2, TokenKind::PathSeparator) {
                    parsed_default_beside(p1, p2, word1, word2);
                }
            },
            Ok((p1, false)) => {
                if let Ok((p2, false)) = next_is(p2, TokenKind::PathSeparator) {
                    parsed_plain_name_beside(p1, p2, word1, word2, depth1, depth2);
                }
            },
        }
    } else {
        parsed_plain_name_beside(p1, p2, word1, word2, depth1, depth2);
    }
}

proof fn parsed_default_beside(
    p1: Parsing,
    p2: Parsing,
    word1: Word,
    word2: Word,
)
    ensures
        beside(p1, p2) && word2 == moved_word(word1) ==> (
        parsed_default(p1, word1) matches Ok((q1, v1)) ==> (match parsed_default(p2, word2) {
            Ok((q2, v2)) => beside(q1, q2) && v2 == v1,
            Err(_) => false,
        })),
{
    reveal_strlit("default");
    take_beside(p1, p2);
    match take(p1) {
        Err(error1) => {},
        Ok((p1, _)) => {
            if let Ok((p2, _)) = take(p2) {
                expect_text_beside(p1, p2, "default"@, ExpressionErrorKind::ExpectedExpression);
                match expect_text(p1, "default"@, ExpressionErrorKind::ExpectedExpression) {
                    Err(error1) => {},
                    Ok((p1, _)) => {
                        if let Ok((p2, _)) = expect_text(p2, "default"@, ExpressionErrorKind::ExpectedExpression) {
                            expect_kind_beside(
                                p1,
                                p2,
                                TokenKind::OpenParen,
                                ExpressionErrorKind::ExpectedExpression,
                            );
                            match expect_kind(
                p1,
                TokenKind::OpenParen,
                ExpressionErrorKind::ExpectedExpression,
            ) {
                                Err(error1) => {},
                                Ok((p1, _)) => {
                                    if let Ok((p2, _)) = expect_kind(
                p2,
                TokenKind::OpenParen,
                ExpressionErrorKind::ExpectedExpression,
            ) {
                                        expect_kind_beside(
                                            p1,
                                            p2,
                                            TokenKind::CloseParen,
                                            ExpressionErrorKind::ExpectedCloseParen,
                                        );
                                        match expect_kind(
                    p1,
                    TokenKind::CloseParen,
                    ExpressionErrorKind::ExpectedCloseParen,
                ) {
                                            Err(error1) => {},
                                            Ok((p1, close1)) => {
                                                if let Ok((p2, close2)) = expect_kind(
                    p2,
                    TokenKind::CloseParen,
                    ExpressionErrorKind::ExpectedCloseParen,
                ) {
                                                    push_node_beside(
                                                        p1,
                                                        p2,
                                                        Form::DefaultValue,
                                                        Span { start: word1.span.start, end: close1.span.end },
                                                        Span { start: word2.span.start, end: close2.span.end },
                                                    );
                                                }
                                            },
                                        }
                                    }
                                },
                            }
                        }
                    },
                }
            }
        },
    }
}

proof fn parsed_plain_name_beside(
    p1: Parsing,
    p2: Parsing,
    word1: Word,
    word2: Word,
    depth1: int,
    depth2: int,
)
    ensures
        beside(p1, p2) && word2 == moved_word(word1) ==> (
        parsed_plain_name(p1, word1, depth1) matches Ok((q1, v1))
            ==> (match parsed_plain_name(p2, word2, depth2) {
            Ok((q2, v2)) => beside(q1, q2) && v2 == v1,
            Err(error) => too_deep(error) && depth1 != depth2,
        })),
    decreases room(depth1), 88int, 0int,
{
    parsed_plain_name_rule(p1, word1, depth1);
    parsed_plain_name_rule(p2, word2, depth2);
    reveal_strlit("false");
    reveal_strlit("true");
    if let Ok((q1, true)) = next_is(p1, TokenKind::OpenParen) {
        if let Ok((q1, _)) = take(q1) {
            parsed_arguments_rule(q1, seq![], depth1);
            nothing_left_is_no_expression(q1, depth1 + 1);
        }
    }
    if word1.text == "true"@ || word1.text == "false"@ {
        push_node_beside(p1, p2, Form::Bool(word1.text == "true"@), word1.span, word2.span);
    } else {
        next_is_beside(p1, p2, TokenKind::OpenParen);
        match next_is(p1, TokenKind::OpenParen) {
            Err(error1) => {},
            Ok((p1, false)) => {
                if let Ok((p2, false)) = next_is(p2, TokenKind::OpenParen) {
                    push_node_beside(p1, p2, Form::Identifier(word1.text), word1.span, word2.span);
                }
            },
            Ok((p1, true)) => {
                if let Ok((p2, true)) = next_is(p2, TokenKind::OpenParen) {
                    take_beside(p1, p2);
                    match take(p1) {
                        Err(error1) => {},
                        Ok((p1, _)) => {
                            if let Ok((p2, _)) = take(p2) {
                                next_is_beside(p1, p2, TokenKind::CloseParen);
                                match next_is(p1, TokenKind::CloseParen) {
                                    Err(error1) => {},
                                    Ok((p1, true)) => {
                                        if let Ok((p2, true)) = next_is(p2, TokenKind::CloseParen) {
                                            closed_call_beside(p1, p2, word1, word2, seq![]);
                                        }
                                    },
                                    Ok((p1, false)) => {
                                        if let Ok((p2, false)) = next_is(p2, TokenKind::CloseParen) {
                                            parsed_arguments_beside(
                                                p1,
                                                p2,
                                                seq![],
                                                depth1,
                                                depth2,
                                            );
                                            match parsed_arguments(p1, seq![], depth1) {
                                                Err(error1) => {},
                                                Ok((p1, arguments1)) => {
                                                    if let Ok((p2, arguments2)) = parsed_arguments(p2, seq![], depth2) {
                                                        closed_call_beside(
                                                            p1,
                                                            p2,
                                                            word1,
                                                            word2,
                                                            arguments1,
                                                        );
                                                    }
                                                },
                                            }
                                        }
                                    },
                                }
                            }
                        },
                    }
                }
            },
        }
    }
}

proof fn closed_call_beside(
    p1: Parsing,
    p2: Parsing,
    word1: Word,
    word2: Word,
    arguments: Seq<ExprId>,
)
    ensures
        beside(p1, p2) && word2 == moved_word(word1) ==> (
        closed_call(p1, word1, arguments) matches Ok((q1, v1))
            ==> (match closed_call(p2, word2, arguments) {
            Ok((q2, v2)) => beside(q1, q2) && v2 == v1,
            Err(_) => false,
        })),
{
    expect_kind_beside(p1, p2, TokenKind::CloseParen, ExpressionErrorKind::ExpectedCloseParen);
    match expect_kind(p1, TokenKind::CloseParen, ExpressionErrorKind::ExpectedCloseParen) {
        Err(error1) => {},
        Ok((p1, close1)) => {
            if let Ok((p2, close2)) = expect_kind(p2, TokenKind::CloseParen, ExpressionErrorKind::ExpectedCloseParen) {
                push_node_beside(
                    p1,
                    p2,
                    Form::Call {
                callee: word1.text,
                arguments: padded(arguments, MAX_CALL_ARGUMENTS as nat),
                argument_count: arguments.len() as usize,
            },
                    Span { start: word1.span.start, end: close1.span.end },
                    Span { start: word2.span.start, end: close2.span.end },
                );
            }
        },
    }
}

proof fn parsed_arguments_beside(
    p1: Parsing,
    p2: Parsing,
    found: Seq<ExprId>,
    depth1: int,
    depth2: int,
)
    ensures
        beside(p1, p2) ==> (
        parsed_arguments(p1, found, depth1) matches Ok((q1, v1))
            ==> (match parsed_arguments(p2, found, depth2) {
            Ok((q2, v2)) => beside(q1, q2) && v2 == v1,
            Err(error) => too_deep(error) && depth1 != depth2,
        })),
    decreases room(depth1), 80int, remaining(p1),
{
    parsed_arguments_rule(p1, found, depth1);
    parsed_arguments_rule(p2, found, depth2);
    if found.len() >= MAX_CALL_ARGUMENTS {
        peek_beside(p1, p2);
    } else {
        parsed_expression_beside(p1, p2, 0, depth1 + 1, depth2 + 1);
        match parsed_expression(p1, 0, depth1 + 1) {
            Err(error1) => {},
            Ok((q1, argument1)) => {
                if let Ok((q2, argument2)) = parsed_expression(p2, 0, depth2 + 1) {
                    next_is_beside(q1, q2, TokenKind::Comma);
                    match next_is(q1, TokenKind::Comma) {
                        Err(error1) => {},
                        Ok((q1, false)) => {},
                        Ok((q1, true)) => {
                            if let Ok((q2, true)) = next_is(q2, TokenKind::Comma) {
                                take_beside(q1, q2);
                                match take(q1) {
                                    Err(error1) => {},
                                    Ok((q1, _)) => {
                                        if let Ok((q2, _)) = take(q2) {
                                            if advances(p1, q1) {
                                                parsed_arguments_beside(
                                                    q1,
                                                    q2,
                                                    found.push(argument1),
                                                    depth1,
                                                    depth2,
                                                );
                                            }
                                        }
                                    },
                                }
                            }
                        },
                    }
                }
            },
        }
    }
}

proof fn parsed_parentheses_beside(
    p1: Parsing,
    p2: Parsing,
    open1: Word,
    open2: Word,
    depth1: int,
    depth2: int,
)
    ensures
        beside(p1, p2) && open2 == moved_word(open1) ==> (
        parsed_parentheses(p1, open1, depth1) matches Ok((q1, v1))
            ==> (match parsed_parentheses(p2, open2, depth2) {
            Ok((q2, v2)) => beside(q1, q2) && v2 == v1,
            Err(error) => too_deep(error) && depth1 != depth2,
        })),
    decreases room(depth1), 90int, 0int,
{
    parsed_parentheses_rule(p1, open1, depth1);
    parsed_parentheses_rule(p2, open2, depth2);
    nothing_left_is_no_expression(p1, depth1 + 1);
    nothing_left_is_no_expression(Parsing { looked: true, ..p1 }, depth1 + 1);
    next_is_beside(p1, p2, TokenKind::CloseParen);
    match next_is(p1, TokenKind::CloseParen) {
        Err(error1) => {},
        Ok((p1, true)) => {
            if let Ok((p2, true)) = next_is(p2, TokenKind::CloseParen) {
                expect_kind_beside(
                    p1,
                    p2,
                    TokenKind::CloseParen,
                    ExpressionErrorKind::ExpectedCloseParen,
                );
                match expect_kind(
            p1,
            TokenKind::CloseParen,
            ExpressionErrorKind::ExpectedCloseParen,
        ) {
                    Err(error1) => {},
                    Ok((p1, close1)) => {
                        if let Ok((p2, close2)) = expect_kind(
            p2,
            TokenKind::CloseParen,
            ExpressionErrorKind::ExpectedCloseParen,
        ) {
                            push_node_beside(
                                p1,
                                p2,
                                Form::Unit,
                                Span { start: open1.span.start, end: close1.span.end },
                                Span { start: open2.span.start, end: close2.span.end },
                            );
                        }
                    },
                }
            }
        },
        Ok((p1, false)) => {
            if let Ok((p2, false)) = next_is(p2, TokenKind::CloseParen) {
                parsed_expression_beside(p1, p2, 0, depth1 + 1, depth2 + 1);
                match parsed_expression(p1, 0, depth1 + 1) {
                    Err(error1) => {},
                    Ok((p1, inner1)) => {
                        if let Ok((p2, inner2)) = parsed_expression(p2, 0, depth2 + 1) {
                            expect_kind_beside(
                                p1,
                                p2,
                                TokenKind::CloseParen,
                                ExpressionErrorKind::ExpectedCloseParen,
                            );
                        }
                    },
                }
            }
        },
    }
}

proof fn parsed_array_beside(
    p1: Parsing,
    p2: Parsing,
    open1: Word,
    open2: Word,
    depth1: int,
    depth2: int,
)
    ensures
        beside(p1, p2) && open2 == moved_word(open1) ==> (
        parsed_array(p1, open1, depth1) matches Ok((q1, v1))
            ==> (match parsed_array(p2, open2, depth2) {
            Ok((q2, v2)) => beside(q1, q2) && v2 == v1,
            Err(error) => too_deep(error) && depth1 != depth2,
        })),
    decreases room(depth1), 90int, 0int,
{
    parsed_array_rule(p1, open1, depth1);
    parsed_array_rule(p2, open2, depth2);
    next_is_beside(p1, p2, TokenKind::CloseBracket);
    match next_is(p1, TokenKind::CloseBracket) {
        Err(error1) => {},
        Ok((p1, true)) => {
            if let Ok((p2, true)) = next_is(p2, TokenKind::CloseBracket) {
                closed_array_beside(p1, p2, open1, open2, seq![]);
            }
        },
        Ok((p1, false)) => {
            if let Ok((p2, false)) = next_is(p2, TokenKind::CloseBracket) {
                parsed_expression_beside(p1, p2, 0, depth1 + 1, depth2 + 1);
                match parsed_expression(p1, 0, depth1 + 1) {
                    Err(error1) => {},
                    Ok((p1, first1)) => {
                        if let Ok((p2, first2)) = parsed_expression(p2, 0, depth2 + 1) {
                            next_is_beside(p1, p2, TokenKind::Semicolon);
                            match next_is(p1, TokenKind::Semicolon) {
                                Err(error1) => {},
                                Ok((p1, true)) => {
                                    if let Ok((p2, true)) = next_is(p2, TokenKind::Semicolon) {
                                        parsed_repeat_beside(p1, p2, open1, open2, first1);
                                    }
                                },
                                Ok((p1, false)) => {
                                    if let Ok((p2, false)) = next_is(p2, TokenKind::Semicolon) {
                                        parsed_elements_beside(
                                            p1,
                                            p2,
                                            seq![first1],
                                            depth1,
                                            depth2,
                                        );
                                        match parsed_elements(p1, seq![first1], depth1) {
                                            Err(error1) => {},
                                            Ok((p1, elements1)) => {
                                                if let Ok((p2, elements2)) = parsed_elements(p2, seq![first2], depth2) {
                                                    closed_array_beside(
                                                        p1,
                                                        p2,
                                                        open1,
                                                        open2,
                                                        elements1,
                                                    );
                                                }
                                            },
                                        }
                                    }
                                },
                            }
                        }
                    },
                }
            }
        },
    }
}

proof fn closed_array_beside(
    p1: Parsing,
    p2: Parsing,
    open1: Word,
    open2: Word,
    elements: Seq<ExprId>,
)
    ensures
        beside(p1, p2) && open2 == moved_word(open1) ==> (
        closed_array(p1, open1, elements) matches Ok((q1, v1))
            ==> (match closed_array(p2, open2, elements) {
            Ok((q2, v2)) => beside(q1, q2) && v2 == v1,
            Err(_) => false,
        })),
{
    expect_kind_beside(p1, p2, TokenKind::CloseBracket, ExpressionErrorKind::ExpectedCloseBracket);
    match expect_kind(
        p1,
        TokenKind::CloseBracket,
        ExpressionErrorKind::ExpectedCloseBracket,
    ) {
        Err(error1) => {},
        Ok((p1, close1)) => {
            if let Ok((p2, close2)) = expect_kind(
        p2,
        TokenKind::CloseBracket,
        ExpressionErrorKind::ExpectedCloseBracket,
    ) {
                push_node_beside(
                    p1,
                    p2,
                    Form::Array {
                elements: padded(elements, MAX_ARRAY_ELEMENTS as nat),
                element_count: elements.len() as usize,
            },
                    Span { start: open1.span.start, end: close1.span.end },
                    Span { start: open2.span.start, end: close2.span.end },
                );
            }
        },
    }
}

proof fn parsed_repeat_beside(
    p1: Parsing,
    p2: Parsing,
    open1: Word,
    open2: Word,
    element: ExprId,
)
    ensures
        beside(p1, p2) && open2 == moved_word(open1) ==> (
        parsed_repeat(p1, open1, element) matches Ok((q1, v1))
            ==> (match parsed_repeat(p2, open2, element) {
            Ok((q2, v2)) => beside(q1, q2) && v2 == v1,
            Err(_) => false,
        })),
{
    take_beside(p1, p2);
    match take(p1) {
        Err(error1) => {},
        Ok((p1, _)) => {
            if let Ok((p2, _)) = take(p2) {
                expect_kind_beside(
                    p1,
                    p2,
                    TokenKind::Integer,
                    ExpressionErrorKind::InvalidArrayLength,
                );
                match expect_kind(
            p1,
            TokenKind::Integer,
            ExpressionErrorKind::InvalidArrayLength,
        ) {
                    Err(error1) => {},
                    Ok((p1, word1)) => {
                        if let Ok((p2, word2)) = expect_kind(
            p2,
            TokenKind::Integer,
            ExpressionErrorKind::InvalidArrayLength,
        ) {
                            match integer_literal(word1.text) {
                                Err(kind1) => {},
                                Ok((value1, _)) => {
                                    if let Ok((value2, _)) = integer_literal(word2.text) {
                                        if value1 > MAX_ARRAY_ELEMENTS {
                                        } else {
                                            expect_kind_beside(
                                                p1,
                                                p2,
                                                TokenKind::CloseBracket,
                                                ExpressionErrorKind::ExpectedCloseBracket,
                                            );
                                            match expect_kind(
                        p1,
                        TokenKind::CloseBracket,
                        ExpressionErrorKind::ExpectedCloseBracket,
                    ) {
                                                Err(error1) => {},
                                                Ok((p1, close1)) => {
                                                    if let Ok((p2, close2)) = expect_kind(
                        p2,
                        TokenKind::CloseBracket,
                        ExpressionErrorKind::ExpectedCloseBracket,
                    ) {
                                                        push_node_beside(
                                                            p1,
                                                            p2,
                                                            Form::ArrayRepeat { element, count: value1 as usize },
                                                            Span { start: open1.span.start, end: close1.span.end },
                                                            Span { start: open2.span.start, end: close2.span.end },
                                                        );
                                                    }
                                                },
                                            }
                                        }
                                    }
                                },
                            }
                        }
                    },
                }
            }
        },
    }
}

proof fn parsed_elements_beside(
    p1: Parsing,
    p2: Parsing,
    found: Seq<ExprId>,
    depth1: int,
    depth2: int,
)
    ensures
        beside(p1, p2) ==> (
        parsed_elements(p1, found, depth1) matches Ok((q1, v1))
            ==> (match parsed_elements(p2, found, depth2) {
            Ok((q2, v2)) => beside(q1, q2) && v2 == v1,
            Err(error) => too_deep(error) && depth1 != depth2,
        })),
    decreases room(depth1), 80int, remaining(p1),
{
    parsed_elements_rule(p1, found, depth1);
    parsed_elements_rule(p2, found, depth2);
    next_is_beside(p1, p2, TokenKind::Comma);
    match next_is(p1, TokenKind::Comma) {
        Err(error1) => {},
        Ok((q1, false)) => {},
        Ok((q1, true)) => {
            if let Ok((q2, true)) = next_is(p2, TokenKind::Comma) {
                take_beside(q1, q2);
                match take(q1) {
                    Err(error1) => {},
                    Ok((q1, _)) => {
                        if let Ok((q2, _)) = take(q2) {
                            next_is_beside(q1, q2, TokenKind::CloseBracket);
                            match next_is(q1, TokenKind::CloseBracket) {
                                Err(error1) => {},
                                Ok((q1, true)) => {},
                                Ok((q1, false)) => {
                                    if let Ok((q2, false)) = next_is(q2, TokenKind::CloseBracket) {
                                        if found.len() >= MAX_ARRAY_ELEMENTS {
                                        } else {
                                            parsed_expression_beside(
                                                q1,
                                                q2,
                                                0,
                                                depth1 + 1,
                                                depth2 + 1,
                                            );
                                            match parsed_expression(q1, 0, depth1 + 1) {
                                                Err(error1) => {},
                                                Ok((q1, element1)) => {
                                                    if let Ok((q2, element2)) = parsed_expression(q2, 0, depth2 + 1) {
                                                        if advances(p1, q1) {
                                                            parsed_elements_beside(
                                                                q1,
                                                                q2,
                                                                found.push(element1),
                                                                depth1,
                                                                depth2,
                                                            );
                                                        }
                                                    }
                                                },
                                            }
                                        }
                                    }
                                },
                            }
                        }
                    },
                }
            }
        },
    }
}

proof fn parsed_const_beside(
    p1: Parsing,
    p2: Parsing,
    word1: Word,
    word2: Word,
    depth1: int,
    depth2: int,
)
    ensures
        beside(p1, p2) && word2 == moved_word(word1) ==> (
        parsed_const(p1, word1, depth1) matches Ok((q1, v1))
            ==> (match parsed_const(p2, word2, depth2) {
            Ok((q2, v2)) => beside(q1, q2) && v2 == v1,
            Err(error) => too_deep(error) && depth1 != depth2,
        })),
    decreases room(depth1), 60int, 0int,
{
    parsed_const_rule(p1, word1, depth1);
    parsed_const_rule(p2, word2, depth2);
    expect_kind_beside(p1, p2, TokenKind::OpenBrace, ExpressionErrorKind::ExpectedOpenBrace);
    match expect_kind(p1, TokenKind::OpenBrace, ExpressionErrorKind::ExpectedOpenBrace) {
        Err(error1) => {},
        Ok((p1, _)) => {
            if let Ok((p2, _)) = expect_kind(p2, TokenKind::OpenBrace, ExpressionErrorKind::ExpectedOpenBrace) {
                parsed_block_beside(p1, p2, depth1, depth2);
                match parsed_block(p1, depth1) {
                    Err(error1) => {},
                    Ok((p1, (operand1, _))) => {
                        if let Ok((p2, (operand2, _))) = parsed_block(p2, depth2) {
                            push_from_beside(
                                p1,
                                p2,
                                Form::InlineConst { operand: operand1 },
                                word1.span.start,
                                word2.span.start,
                                operand1,
                            );
                        }
                    },
                }
            }
        },
    }
}

proof fn parsed_block_beside(
    p1: Parsing,
    p2: Parsing,
    depth1: int,
    depth2: int,
)
    ensures
        beside(p1, p2) ==> (
        parsed_block(p1, depth1) matches Ok((q1, v1)) ==> (match parsed_block(p2, depth2) {
            Ok((q2, v2)) => beside(q1, q2) && v2 == (v1.0, moved_place(v1.1)),
            Err(error) => too_deep(error) && depth1 != depth2,
        })),
    decreases room(depth1), 50int, 0int,
{
    parsed_block_rule(p1, depth1);
    parsed_block_rule(p2, depth2);
    parsed_statements_beside(p1, p2, seq![], 0, seq![], depth1, depth2);
    match parsed_statements(p1, seq![], 0, seq![], depth1) {
        Err(error1) => {},
        Ok((p1, (statements1, tail1))) => {
            if let Ok((p2, (statements2, tail2))) = parsed_statements(p2, seq![], 0, seq![], depth2) {
                expect_kind_beside(
                    p1,
                    p2,
                    TokenKind::CloseBrace,
                    ExpressionErrorKind::ExpectedCloseBrace,
                );
                match expect_kind(
            p1,
            TokenKind::CloseBrace,
            ExpressionErrorKind::ExpectedCloseBrace,
        ) {
                    Err(error1) => {},
                    Ok((p1, close1)) => {
                        if let Ok((p2, close2)) = expect_kind(
            p2,
            TokenKind::CloseBrace,
            ExpressionErrorKind::ExpectedCloseBrace,
        ) {
                            sequenced_beside(p1, p2, statements1, statements1.len() as int, tail1);
                        }
                    },
                }
            }
        },
    }
}

proof fn parsed_statements_beside(
    p1: Parsing,
    p2: Parsing,
    bindings: Seq<Binding>,
    assignments: int,
    statements: Seq<ExprId>,
    depth1: int,
    depth2: int,
)
    ensures
        beside(p1, p2) ==> (
        parsed_statements(p1, bindings, assignments, statements, depth1) matches Ok((q1, v1))
            ==> (match parsed_statements(p2, bindings, assignments, statements, depth2) {
            Ok((q2, v2)) => beside(q1, q2) && v2 == v1,
            Err(error) => too_deep(error) && depth1 != depth2,
        })),
    decreases room(depth1), 40int, remaining(p1),
{
    parsed_statements_rule(p1, bindings, assignments, statements, depth1);
    parsed_statements_rule(p2, bindings, assignments, statements, depth2);
    reveal_strlit("let");
    reveal_strlit(")");
    assert(")"@.len() == 1 && "let"@.len() == 3);
    peek_beside(p1, p2);
    match peek(p1) {
        Err(error1) => {},
        Ok(q1) => {
            if let Ok(q2) = peek(p2) {
                if is_kind(front(q1), TokenKind::CloseBrace) {
                    push_unit_at_beside(q1, q2, front(q1)->0, front(q2)->0);
                } else {
                    if is_text(front(q1), "let"@) {
                        parsed_binding_beside(q1, q2, bindings, depth1 + 1, depth2 + 1);
                        match parsed_binding(q1, bindings, depth1 + 1) {
                            Err(error1) => {},
                            Ok((q1, bindings1)) => {
                                if let Ok((q2, bindings2)) = parsed_binding(q2, bindings, depth2 + 1) {
                                    if advances(p1, q1) {
                                        parsed_statements_beside(
                                            q1,
                                            q2,
                                            bindings1,
                                            assignments,
                                            statements,
                                            depth1,
                                            depth2,
                                        );
                                    }
                                }
                            },
                        }
                    } else {
                        parsed_assignment_beside(
                            q1,
                            q2,
                            bindings,
                            assignments,
                            depth1 + 1,
                            depth2 + 1,
                        );
                        match parsed_assignment(q1, bindings, assignments, depth1 + 1) {
                            Err(error1) => {},
                            Ok((q1, Some(bindings1))) => {
                                if let Ok((q2, Some(bindings2))) = parsed_assignment(q2, bindings, assignments, depth2 + 1) {
                                    if advances(p1, q1) {
                                        parsed_statements_beside(
                                            q1,
                                            q2,
                                            bindings1,
                                            assignments + 1,
                                            statements,
                                            depth1,
                                            depth2,
                                        );
                                    }
                                }
                            },
                            Ok((q1, None)) => {
                                if let Ok((q2, None)) = parsed_assignment(q2, bindings, assignments, depth2 + 1) {
                                    parsed_bound_expression_beside(
                                        q1,
                                        q2,
                                        bindings,
                                        depth1 + 1,
                                        depth2 + 1,
                                    );
                                    match parsed_bound_expression(q1, bindings, depth1 + 1) {
                                        Err(error1) => {},
                                        Ok((q1, expression1)) => {
                                            if let Ok((q2, expression2)) = parsed_bound_expression(q2, bindings, depth2 + 1) {
                                                next_is_beside(q1, q2, TokenKind::Semicolon);
                                                match next_is(q1, TokenKind::Semicolon) {
                                                    Err(error1) => {},
                                                    Ok((q1, false)) => {},
                                                    Ok((q1, true)) => {
                                                        if let Ok((q2, true)) = next_is(q2, TokenKind::Semicolon) {
                                                            take_beside(q1, q2);
                                                            match take(q1) {
                                                                Err(error1) => {},
                                                                Ok((q1, semicolon1)) => {
                                                                    if let Ok((q2, semicolon2)) = take(q2) {
                                                                        if statements.len()
                                >= MAX_INLINE_CONST_EXPRESSION_STATEMENTS {
                                                                        } else {
                                                                            if advances(p1, q1) {
                                                                                parsed_statements_beside(
                                                                                    q1,
                                                                                    q2,
                                                                                    bindings,
                                                                                    assignments,
                                                                                    statements.push(expression1),
                                                                                    depth1,
                                                                                    depth2,
                                                                                );
                                                                            }
                                                                        }
                                                                    }
                                                                },
                                                            }
                                                        }
                                                    },
                                                }
                                            }
                                        },
                                    }
                                }
                            },
                        }
                    }
                }
            }
        },
    }
}

proof fn parsed_bound_expression_beside(
    p1: Parsing,
    p2: Parsing,
    bindings: Seq<Binding>,
    depth1: int,
    depth2: int,
)
    ensures
        beside(p1, p2) ==> (
        parsed_bound_expression(p1, bindings, depth1) matches Ok((q1, v1))
            ==> (match parsed_bound_expression(p2, bindings, depth2) {
            Ok((q2, v2)) => beside(q1, q2) && v2 == v1,
            Err(error) => too_deep(error) && depth1 != depth2,
        })),
    decreases room(depth1), 25int, 0int,
{
    parsed_bound_expression_rule(p1, bindings, depth1);
    parsed_bound_expression_rule(p2, bindings, depth2);
    parsed_expression_beside(p1, p2, 0, depth1, depth2);
    match parsed_expression(p1, 0, depth1) {
        Err(error1) => {},
        Ok((p1, expression1)) => {
            if let Ok((p2, expression2)) = parsed_expression(p2, 0, depth2) {
                with_bindings_beside(
                    p1,
                    p2,
                    expression1,
                    bindings,
                    bindings.len() as int,
                    depth1,
                    depth2,
                );
            }
        },
    }
}

proof fn parsed_bound_statement_beside(
    p1: Parsing,
    p2: Parsing,
    bindings: Seq<Binding>,
    depth1: int,
    depth2: int,
)
    ensures
        beside(p1, p2) ==> (
        parsed_bound_statement(p1, bindings, depth1) matches Ok((q1, v1))
            ==> (match parsed_bound_statement(p2, bindings, depth2) {
            Ok((q2, v2)) => beside(q1, q2) && v2 == v1,
            Err(error) => too_deep(error) && depth1 != depth2,
        })),
    decreases room(depth1), 25int, 0int,
{
    parsed_bound_statement_rule(p1, bindings, depth1);
    parsed_bound_statement_rule(p2, bindings, depth2);
    parsed_expression_beside(p1, p2, 0, depth1, depth2);
    match parsed_expression(p1, 0, depth1) {
        Err(error1) => {},
        Ok((p1, expression1)) => {
            if let Ok((p2, expression2)) = parsed_expression(p2, 0, depth2) {
                expect_kind_beside(
                    p1,
                    p2,
                    TokenKind::Semicolon,
                    ExpressionErrorKind::ExpectedSemicolon,
                );
                match expect_kind(
            p1,
            TokenKind::Semicolon,
            ExpressionErrorKind::ExpectedSemicolon,
        ) {
                    Err(error1) => {},
                    Ok((p1, _)) => {
                        if let Ok((p2, _)) = expect_kind(
            p2,
            TokenKind::Semicolon,
            ExpressionErrorKind::ExpectedSemicolon,
        ) {
                            with_bindings_beside(
                                p1,
                                p2,
                                expression1,
                                bindings,
                                bindings.len() as int,
                                depth1,
                                depth2,
                            );
                        }
                    },
                }
            }
        },
    }
}

proof fn parsed_mut_beside(
    p1: Parsing,
    p2: Parsing,
)
    ensures
        beside(p1, p2) ==> (
        parsed_mut(p1) matches Ok((q1, v1)) ==> (match parsed_mut(p2) {
            Ok((q2, v2)) => beside(q1, q2) && v2 == v1,
            Err(_) => false,
        })),
{
    reveal_strlit("mut");
    next_reads_beside(p1, p2, "mut"@);
    match next_reads(p1, "mut"@) {
        Err(error1) => {},
        Ok((p1, false)) => {},
        Ok((p1, true)) => {
            if let Ok((p2, true)) = next_reads(p2, "mut"@) {
                take_beside(p1, p2);
            }
        },
    }
}

proof fn parsed_binding_beside(
    p1: Parsing,
    p2: Parsing,
    bindings: Seq<Binding>,
    depth1: int,
    depth2: int,
)
    ensures
        beside(p1, p2) ==> (
        parsed_binding(p1, bindings, depth1) matches Ok((q1, v1))
            ==> (match parsed_binding(p2, bindings, depth2) {
            Ok((q2, v2)) => beside(q1, q2) && v2 == v1,
            Err(error) => too_deep(error) && depth1 != depth2,
        })),
    decreases room(depth1), 30int, 0int,
{
    parsed_binding_rule(p1, bindings, depth1);
    parsed_binding_rule(p2, bindings, depth2);
    reveal_strlit("=");
    take_beside(p1, p2);
    match take(p1) {
        Err(error1) => {},
        Ok((p1, let_word1)) => {
            if let Ok((p2, let_word2)) = take(p2) {
                if bindings.len() >= MAX_INLINE_CONST_BINDINGS {
                } else {
                    parsed_mut_beside(p1, p2);
                    match parsed_mut(p1) {
                        Err(error1) => {},
                        Ok((p1, mutable1)) => {
                            if let Ok((p2, mutable2)) = parsed_mut(p2) {
                                expect_kind_beside(
                                    p1,
                                    p2,
                                    TokenKind::Identifier,
                                    ExpressionErrorKind::ExpectedIdentifier,
                                );
                                match expect_kind(
                    p1,
                    TokenKind::Identifier,
                    ExpressionErrorKind::ExpectedIdentifier,
                ) {
                                    Err(error1) => {},
                                    Ok((p1, name1)) => {
                                        if let Ok((p2, name2)) = expect_kind(
                    p2,
                    TokenKind::Identifier,
                    ExpressionErrorKind::ExpectedIdentifier,
                ) {
                                            parsed_annotation_beside(p1, p2);
                                            match parsed_annotation(p1) {
                                                Err(error1) => {},
                                                Ok((p1, annotation1)) => {
                                                    if let Ok((p2, annotation2)) = parsed_annotation(p2) {
                                                        expect_operator_beside(
                                                            p1,
                                                            p2,
                                                            "="@,
                                                            ExpressionErrorKind::ExpectedEquals,
                                                        );
                                                        match expect_operator(
                            p1,
                            "="@,
                            ExpressionErrorKind::ExpectedEquals,
                        ) {
                                                            Err(error1) => {},
                                                            Ok((p1, _)) => {
                                                                if let Ok((p2, _)) = expect_operator(
                            p2,
                            "="@,
                            ExpressionErrorKind::ExpectedEquals,
                        ) {
                                                                    parsed_bound_statement_beside(
                                                                        p1,
                                                                        p2,
                                                                        bindings,
                                                                        depth1 + 1,
                                                                        depth2 + 1,
                                                                    );
                                                                    match parsed_bound_statement(p1, bindings, depth1 + 1) {
                                                                        Err(error1) => {},
                                                                        Ok((p1, value1)) => {
                                                                            if let Ok((p2, value2)) = parsed_bound_statement(p2, bindings, depth2 + 1) {
                                                                                match form_of(p1, value1, name1.span) {
                                                                                    Err(error1) => {},
                                                                                    Ok(form1) => {
                                                                                        if let Ok(form2) = form_of(p2, value2, name2.span) {
                                                                                            annotated_beside(
                                                                                                p1,
                                                                                                p2,
                                                                                                form1,
                                                                                                annotation1,
                                                                                                name1,
                                                                                                name2,
                                                                                                value1,
                                                                                            );
                                                                                        }
                                                                                    },
                                                                                }
                                                                            }
                                                                        },
                                                                    }
                                                                }
                                                            },
                                                        }
                                                    }
                                                },
                                            }
                                        }
                                    },
                                }
                            }
                        },
                    }
                }
            }
        },
    }
}

proof fn assigned_form_beside(
    p1: Parsing,
    p2: Parsing,
    binding: Binding,
    operator1: Word,
    operator2: Word,
    name1: Word,
    name2: Word,
    value: ExprId,
)
    ensures
        beside(p1, p2) && operator2 == moved_word(operator1) && name2 == moved_word(name1) ==> (
        assigned_form(p1, binding, operator1, name1, value) matches Ok((q1, v1))
            ==> (match assigned_form(p2, binding, operator2, name2, value) {
            Ok((q2, v2)) => beside(q1, q2) && v2 == v1,
            Err(_) => false,
        })),
{
    reveal(assigned_form);
    match form_of(p1, value, name1.span) {
        Err(error1) => {},
        Ok(form1) => {
            if let Ok(form2) = form_of(p2, value, name2.span) {
                match assignment_operator(operator1.text) {
                    None => {
                        annotated_beside(p1, p2, form1, binding.annotation, name1, name2, value);
                    },
                    Some(binary1) => {
                        if let Some(binary2) = assignment_operator(operator2.text) {
                            push_node_beside(p1, p2, binding.form, name1.span, name2.span);
                            match push_node(p1, binding.form, name1.span) {
                                Err(error1) => {},
                                Ok((p1, previous1)) => {
                                    if let Ok((p2, previous2)) = push_node(p2, binding.form, name2.span) {
                                        let updated1 = Form::Binary { operator: binary1, left: previous1, right: value };
                                        let updated2 = Form::Binary { operator: binary2, left: previous2, right: value };
                                        push_from_beside(
                                            p1,
                                            p2,
                                            updated1,
                                            name1.span.start,
                                            name2.span.start,
                                            value,
                                        );
                                        match push_from(p1, updated1, name1.span.start, value) {
                                            Err(error1) => {},
                                            Ok((p1, _)) => {
                                                if let Ok((p2, _)) = push_from(p2, updated2, name2.span.start, value) {
                                                    annotated_beside(
                                                        p1,
                                                        p2,
                                                        updated1,
                                                        binding.annotation,
                                                        name1,
                                                        name2,
                                                        value,
                                                    );
                                                }
                                            },
                                        }
                                    }
                                },
                            }
                        }
                    },
                }
            }
        },
    }
}

proof fn parsed_assignment_beside(
    p1: Parsing,
    p2: Parsing,
    bindings: Seq<Binding>,
    assignments: int,
    depth1: int,
    depth2: int,
)
    ensures
        beside(p1, p2) ==> (
        parsed_assignment(p1, bindings, assignments, depth1) matches Ok((q1, v1))
            ==> (match parsed_assignment(p2, bindings, assignments, depth2) {
            Ok((q2, v2)) => beside(q1, q2) && v2 == v1,
            Err(error) => too_deep(error) && depth1 != depth2,
        })),
    decreases room(depth1), 30int, 0int,
{
    parsed_assignment_rule(p1, bindings, assignments, depth1);
    parsed_assignment_rule(p2, bindings, assignments, depth2);
    reveal_strlit("=");
    take_beside(p1, p2);
    match take(p1) {
        Err(error1) => {},
        Ok((q1, first1)) => {
            if let Ok((q2, first2)) = take(p2) {
                if !is_kind(first1, TokenKind::Identifier) {
                } else {
                    let name1 = first1->0;
                    let name2 = first2->0;
                    match binding_place(bindings, name1.text, bindings.len() as int) {
                        None => {},
                        Some(place1) => {
                            if let Some(place2) = binding_place(bindings, name2.text, bindings.len() as int) {
                                take_beside(q1, q2);
                                match take(q1) {
                                    Err(error1) => {},
                                    Ok((q1, second1)) => {
                                        if let Ok((q2, second2)) = take(q2) {
                                            if !is_kind(second1, TokenKind::Operator) || !(is_text(
                        second1,
                        "="@,
                    ) || assignment_operator(second1->0.text) is Some) {
                                            } else {
                                                if assignments >= MAX_INLINE_CONST_ASSIGNMENTS {
                                                } else {
                                                    if !bindings[place1].mutable {
                                                    } else {
                                                        parsed_bound_statement_beside(
                                                            q1,
                                                            q2,
                                                            bindings,
                                                            depth1 + 1,
                                                            depth2 + 1,
                                                        );
                                                        match parsed_bound_statement(q1, bindings, depth1 + 1) {
                                                            Err(error1) => {},
                                                            Ok((q1, value1)) => {
                                                                if let Ok((q2, value2)) = parsed_bound_statement(q2, bindings, depth2 + 1) {
                                                                    assigned_form_beside(
                                                                        q1,
                                                                        q2,
                                                                        bindings[place1],
                                                                        second1->0,
                                                                        second2->0,
                                                                        name1,
                                                                        name2,
                                                                        value1,
                                                                    );
                                                                }
                                                            },
                                                        }
                                                    }
                                                }
                                            }
                                        }
                                    },
                                }
                            }
                        },
                    }
                }
            }
        },
    }
}

proof fn parsed_if_beside(
    p1: Parsing,
    p2: Parsing,
    word1: Word,
    word2: Word,
    depth1: int,
    depth2: int,
)
    ensures
        beside(p1, p2) && word2 == moved_word(word1) ==> (
        parsed_if(p1, word1, depth1) matches Ok((q1, v1)) ==> (match parsed_if(p2, word2, depth2) {
            Ok((q2, v2)) => beside(q1, q2) && v2 == v1,
            Err(error) => too_deep(error) && depth1 != depth2,
        })),
    decreases room(depth1), 20int, 0int,
{
    parsed_if_rule(p1, word1, depth1);
    parsed_if_rule(p2, word2, depth2);
    if level_refused(depth1) {
    } else {
        parsed_expression_beside(p1, p2, 0, depth1 + 1, depth2 + 1);
        match parsed_expression(p1, 0, depth1 + 1) {
            Err(error1) => {},
            Ok((p1, condition1)) => {
                if let Ok((p2, condition2)) = parsed_expression(p2, 0, depth2 + 1) {
                    expect_kind_beside(
                        p1,
                        p2,
                        TokenKind::OpenBrace,
                        ExpressionErrorKind::ExpectedOpenBrace,
                    );
                    match expect_kind(
                p1,
                TokenKind::OpenBrace,
                ExpressionErrorKind::ExpectedOpenBrace,
            ) {
                        Err(error1) => {},
                        Ok((p1, _)) => {
                            if let Ok((p2, _)) = expect_kind(
                p2,
                TokenKind::OpenBrace,
                ExpressionErrorKind::ExpectedOpenBrace,
            ) {
                                parsed_block_beside(p1, p2, depth1 + 1, depth2 + 1);
                                match parsed_block(p1, depth1 + 1) {
                                    Err(error1) => {},
                                    Ok((p1, (then_branch1, then_end1))) => {
                                        if let Ok((p2, (then_branch2, then_end2))) = parsed_block(p2, depth2 + 1) {
                                            parsed_else_beside(
                                                p1,
                                                p2,
                                                then_branch1,
                                                then_end1,
                                                then_end2,
                                                depth1,
                                                depth2,
                                            );
                                            match parsed_else(
                        p1,
                        then_branch1,
                        then_end1,
                        depth1,
                    ) {
                                                Err(error1) => {},
                                                Ok((p1, (else_branch1, end1))) => {
                                                    if let Ok((p2, (else_branch2, end2))) = parsed_else(
                        p2,
                        then_branch2,
                        then_end2,
                        depth2,
                    ) {
                                                        push_node_beside(
                                                            p1,
                                                            p2,
                                                            Form::If { condition: condition1, then_branch: then_branch1, else_branch: else_branch1 },
                                                            Span { start: word1.span.start, end: end1 },
                                                            Span { start: word2.span.start, end: end2 },
                                                        );
                                                    }
                                                },
                                            }
                                        }
                                    },
                                }
                            }
                        },
                    }
                }
            },
        }
    }
}

proof fn parsed_else_beside(
    p1: Parsing,
    p2: Parsing,
    then_branch: ExprId,
    then_end1: usize,
    then_end2: usize,
    depth1: int,
    depth2: int,
)
    ensures
        beside(p1, p2) && then_end2 == moved_place(then_end1) ==> (
        parsed_else(p1, then_branch, then_end1, depth1) matches Ok((q1, v1))
            ==> (match parsed_else(p2, then_branch, then_end2, depth2) {
            Ok((q2, v2)) => beside(q1, q2) && v2 == (v1.0, moved_place(v1.1)),
            Err(error) => too_deep(error) && depth1 != depth2,
        })),
    decreases room(depth1), 10int, 0int,
{
    parsed_else_rule(p1, then_branch, then_end1, depth1);
    parsed_else_rule(p2, then_branch, then_end2, depth2);
    reveal_strlit("else");
    reveal_strlit("if");
    all_moved_units_alike(depth1 + 1);
    if level_refused(depth1) {
    } else {
        next_reads_beside(p1, p2, "else"@);
        match next_reads(p1, "else"@) {
            Err(error1) => {},
            Ok((p1, false)) => {
                if let Ok((p2, false)) = next_reads(p2, "else"@) {
                    if !unit_form(p1.nodes, then_branch, depth1 + 1) {
                    } else {
                        push_node_beside(
                            p1,
                            p2,
                            Form::Unit,
                            Span { start: then_end1, end: then_end1 },
                            Span { start: then_end2, end: then_end2 },
                        );
                    }
                }
            },
            Ok((p1, true)) => {
                if let Ok((p2, true)) = next_reads(p2, "else"@) {
                    take_beside(p1, p2);
                    match take(p1) {
                        Err(error1) => {},
                        Ok((p1, _)) => {
                            if let Ok((p2, _)) = take(p2) {
                                next_reads_beside(p1, p2, "if"@);
                                match next_reads(p1, "if"@) {
                                    Err(error1) => {},
                                    Ok((p1, true)) => {
                                        if let Ok((p2, true)) = next_reads(p2, "if"@) {
                                            take_beside(p1, p2);
                                            match take(p1) {
                                                Err(error1) => {},
                                                Ok((p1, nested1)) => {
                                                    if let Ok((p2, nested2)) = take(p2) {
                                                        parsed_if_beside(
                                                            p1,
                                                            p2,
                                                            nested1->0,
                                                            nested2->0,
                                                            depth1 + 1,
                                                            depth2 + 1,
                                                        );
                                                    }
                                                },
                                            }
                                        }
                                    },
                                    Ok((p1, false)) => {
                                        if let Ok((p2, false)) = next_reads(p2, "if"@) {
                                            expect_kind_beside(
                                                p1,
                                                p2,
                                                TokenKind::OpenBrace,
                                                ExpressionErrorKind::ExpectedOpenBrace,
                                            );
                                            match expect_kind(
                        p1,
                        TokenKind::OpenBrace,
                        ExpressionErrorKind::ExpectedOpenBrace,
                    ) {
                                                Err(error1) => {},
                                                Ok((p1, _)) => {
                                                    if let Ok((p2, _)) = expect_kind(
                        p2,
                        TokenKind::OpenBrace,
                        ExpressionErrorKind::ExpectedOpenBrace,
                    ) {
                                                        parsed_block_beside(
                                                            p1,
                                                            p2,
                                                            depth1 + 1,
                                                            depth2 + 1,
                                                        );
                                                    }
                                                },
                                            }
                                        }
                                    },
                                }
                            }
                        },
                    }
                }
            },
        }
    }
}

proof fn parsed_match_beside(
    p1: Parsing,
    p2: Parsing,
    word1: Word,
    word2: Word,
    depth1: int,
    depth2: int,
)
    ensures
        beside(p1, p2) && word2 == moved_word(word1) ==> (
        parsed_match(p1, word1, depth1) matches Ok((q1, v1))
            ==> (match parsed_match(p2, word2, depth2) {
            Ok((q2, v2)) => beside(q1, q2) && v2 == v1,
            Err(error) => too_deep(error) && depth1 != depth2,
        })),
    decreases room(depth1), 100int, 0int,
{
    parsed_match_rule(p1, word1, depth1);
    parsed_match_rule(p2, word2, depth2);
    if level_refused(depth1) {
    } else {
        parsed_expression_beside(p1, p2, 0, depth1 + 1, depth2 + 1);
        match parsed_expression(p1, 0, depth1 + 1) {
            Err(error1) => {},
            Ok((p1, scrutinee1)) => {
                if let Ok((p2, scrutinee2)) = parsed_expression(p2, 0, depth2 + 1) {
                    expect_kind_beside(
                        p1,
                        p2,
                        TokenKind::OpenBrace,
                        ExpressionErrorKind::ExpectedOpenBrace,
                    );
                    match expect_kind(
                p1,
                TokenKind::OpenBrace,
                ExpressionErrorKind::ExpectedOpenBrace,
            ) {
                        Err(error1) => {},
                        Ok((p1, _)) => {
                            if let Ok((p2, _)) = expect_kind(
                p2,
                TokenKind::OpenBrace,
                ExpressionErrorKind::ExpectedOpenBrace,
            ) {
                                parsed_arms_beside(
                                    p1,
                                    p2,
                                    seq![],
                                    scrutinee1,
                                    word1,
                                    word2,
                                    depth1,
                                    depth2,
                                );
                                match parsed_arms(p1, seq![], scrutinee1, word1, depth1) {
                                    Err(error1) => {},
                                    Ok((p1, arms1)) => {
                                        if let Ok((p2, arms2)) = parsed_arms(p2, seq![], scrutinee2, word2, depth2) {
                                            decision_beside(
                                                p1,
                                                p2,
                                                scrutinee1,
                                                arms1.arms,
                                                arms1.arms.len() as int,
                                                arms1.otherwise,
                                                Span { start: word1.span.start, end: arms1.close.span.end },
                                                Span { start: word2.span.start, end: arms2.close.span.end },
                                                word1.span,
                                                word2.span,
                                            );
                                        }
                                    },
                                }
                            }
                        },
                    }
                }
            },
        }
    }
}

proof fn parsed_arm_start_beside(
    p1: Parsing,
    p2: Parsing,
    arm_count: int,
    depth1: int,
    depth2: int,
)
    ensures
        beside(p1, p2) ==> (
        parsed_arm_start(p1, arm_count, depth1) matches Ok((q1, v1))
            ==> (match parsed_arm_start(p2, arm_count, depth2) {
            Ok((q2, v2)) => beside(q1, q2) && v2 == v1,
            Err(error) => too_deep(error) && depth1 != depth2,
        })),
{
    reveal(parsed_arm_start);
    reveal_strlit("_");
    reveal_strlit("if");
    peek_beside(p1, p2);
    match peek(p1) {
        Err(error1) => {},
        Ok(q1) => {
            if let Ok(q2) = peek(p2) {
                if is_kind(front(q1), TokenKind::Identifier) && is_text(front(q1), "_"@) {
                    take_beside(q1, q2);
                    match take(q1) {
                        Err(error1) => {},
                        Ok((q1, _)) => {
                            if let Ok((q2, _)) = take(q2) {
                                next_reads_beside(q1, q2, "if"@);
                            }
                        },
                    }
                } else {
                    if arm_count >= MAX_MATCH_PATTERNS {
                    } else {
                        parsed_alternatives_list_beside(q1, q2, seq![], depth1, depth2);
                    }
                }
            }
        },
    }
}

proof fn parsed_arm_end_beside(
    p1: Parsing,
    p2: Parsing,
    arms: Seq<Arm>,
    block: bool,
)
    ensures
        beside(p1, p2) ==> (
        parsed_arm_end(p1, arms, block) matches Ok((q1, v1))
            ==> (match parsed_arm_end(p2, arms, block) {
            Ok((q2, v2)) => beside(q1, q2) && v2 == moved_arms_option(v1),
            Err(_) => false,
        })),
{
    reveal(parsed_arm_end);
    moved_arms_cover_alike(p1.nodes, arms);
    next_is_beside(p1, p2, TokenKind::Comma);
    match next_is(p1, TokenKind::Comma) {
        Err(error1) => {},
        Ok((p1, comma1)) => {
            if let Ok((p2, comma2)) = next_is(p2, TokenKind::Comma) {
                take_beside(p1, p2);
                match (if comma1 {
            take(p1)
        } else {
            Ok((p1, None))
        }) {
                    Err(error1) => {},
                    Ok((p1, _)) => {
                        if let Ok((p2, _)) = (if comma2 {
            take(p2)
        } else {
            Ok((p2, None))
        }) {
                            next_is_beside(p1, p2, TokenKind::CloseBrace);
                            match next_is(p1, TokenKind::CloseBrace) {
                                Err(error1) => {},
                                Ok((p1, true)) => {
                                    if let Ok((p2, true)) = next_is(p2, TokenKind::CloseBrace) {
                                        if !arms_cover(p1.nodes, arms) {
                                        } else {
                                            take_beside(p1, p2);
                                        }
                                    }
                                },
                                Ok((p1, false)) => {},
                            }
                        }
                    },
                }
            }
        },
    }
}

proof fn parsed_arms_beside(
    p1: Parsing,
    p2: Parsing,
    arms: Seq<Arm>,
    scrutinee: ExprId,
    word1: Word,
    word2: Word,
    depth1: int,
    depth2: int,
)
    ensures
        beside(p1, p2) && word2 == moved_word(word1) ==> (
        parsed_arms(p1, arms, scrutinee, word1, depth1) matches Ok((q1, v1))
            ==> (match parsed_arms(p2, arms, scrutinee, word2, depth2) {
            Ok((q2, v2)) => beside(q1, q2) && v2 == moved_arms(v1),
            Err(error) => too_deep(error) && depth1 != depth2,
        })),
    decreases room(depth1), 90int, remaining(p1),
{
    parsed_arms_rule(p1, arms, scrutinee, word1, depth1);
    parsed_arms_rule(p2, arms, scrutinee, word2, depth2);
    parsed_arm_start_beside(p1, p2, arms.len() as int, depth1, depth2);
    match parsed_arm_start(p1, arms.len() as int, depth1) {
        Err(error1) => {},
        Ok((q1, None)) => {
            if let Ok((q2, None)) = parsed_arm_start(p2, arms.len() as int, depth2) {
                parsed_fallback_beside(q1, q2, arms, depth1, depth2);
            }
        },
        Ok((q1, Some(alternatives1))) => {
            if let Ok((q2, Some(alternatives2))) = parsed_arm_start(p2, arms.len() as int, depth2) {
                parsed_arm_beside(q1, q2, alternatives1, scrutinee, word1, word2, depth1, depth2);
                match parsed_arm(q1, alternatives1, scrutinee, word1, depth1) {
                    Err(error1) => {},
                    Ok((q1, (arm1, block1))) => {
                        if let Ok((q2, (arm2, block2))) = parsed_arm(q2, alternatives2, scrutinee, word2, depth2) {
                            parsed_arm_end_beside(q1, q2, arms.push(arm1), block1);
                            match parsed_arm_end(q1, arms.push(arm1), block1) {
                                Err(error1) => {},
                                Ok((q1, Some(all1))) => {},
                                Ok((q1, None)) => {
                                    if let Ok((q2, None)) = parsed_arm_end(q2, arms.push(arm2), block2) {
                                        if advances(p1, q1) {
                                            parsed_arms_beside(
                                                q1,
                                                q2,
                                                arms.push(arm1),
                                                scrutinee,
                                                word1,
                                                word2,
                                                depth1,
                                                depth2,
                                            );
                                        }
                                    }
                                },
                            }
                        }
                    },
                }
            }
        },
    }
}

proof fn parsed_fallback_beside(
    p1: Parsing,
    p2: Parsing,
    arms: Seq<Arm>,
    depth1: int,
    depth2: int,
)
    ensures
        beside(p1, p2) ==> (
        parsed_fallback(p1, arms, depth1) matches Ok((q1, v1))
            ==> (match parsed_fallback(p2, arms, depth2) {
            Ok((q2, v2)) => beside(q1, q2) && v2 == moved_arms(v1),
            Err(error) => too_deep(error) && depth1 != depth2,
        })),
    decreases room(depth1), 85int, 0int,
{
    parsed_fallback_rule(p1, arms, depth1);
    parsed_fallback_rule(p2, arms, depth2);
    expect_kind_beside(p1, p2, TokenKind::FatArrow, ExpressionErrorKind::ExpectedFatArrow);
    match expect_kind(p1, TokenKind::FatArrow, ExpressionErrorKind::ExpectedFatArrow) {
        Err(error1) => {},
        Ok((p1, _)) => {
            if let Ok((p2, _)) = expect_kind(p2, TokenKind::FatArrow, ExpressionErrorKind::ExpectedFatArrow) {
                parsed_expression_beside(p1, p2, 0, depth1 + 1, depth2 + 1);
                match parsed_expression(p1, 0, depth1 + 1) {
                    Err(error1) => {},
                    Ok((p1, otherwise1)) => {
                        if let Ok((p2, otherwise2)) = parsed_expression(p2, 0, depth2 + 1) {
                            next_is_beside(p1, p2, TokenKind::Comma);
                            match next_is(p1, TokenKind::Comma) {
                                Err(error1) => {},
                                Ok((p1, comma1)) => {
                                    if let Ok((p2, comma2)) = next_is(p2, TokenKind::Comma) {
                                        take_beside(p1, p2);
                                        match (if comma1 {
                    take(p1)
                } else {
                    Ok((p1, None))
                }) {
                                            Err(error1) => {},
                                            Ok((p1, _)) => {
                                                if let Ok((p2, _)) = (if comma2 {
                    take(p2)
                } else {
                    Ok((p2, None))
                }) {
                                                    expect_kind_beside(
                                                        p1,
                                                        p2,
                                                        TokenKind::CloseBrace,
                                                        ExpressionErrorKind::ExpectedCloseBrace,
                                                    );
                                                }
                                            },
                                        }
                                    }
                                },
                            }
                        }
                    },
                }
            }
        },
    }
}

proof fn parsed_alternatives_list_beside(
    p1: Parsing,
    p2: Parsing,
    found: Seq<Pattern>,
    depth1: int,
    depth2: int,
)
    ensures
        beside(p1, p2) ==> (
        parsed_alternatives_list(p1, found, depth1) matches Ok((q1, v1))
            ==> (match parsed_alternatives_list(p2, found, depth2) {
            Ok((q2, v2)) => beside(q1, q2) && v2 == v1,
            Err(error) => too_deep(error) && depth1 != depth2,
        })),
    decreases remaining(p1),
{
    reveal(parsed_alternatives_list);
    reveal_strlit("|");
    parsed_alternatives_beside(p1, p2, found, None, depth1 + 1, depth2 + 1);
    match parsed_alternatives(p1, found, None, depth1 + 1) {
        Err(error1) => {},
        Ok((q1, found1)) => {
            if let Ok((q2, found2)) = parsed_alternatives(p2, found, None, depth2 + 1) {
                next_operator_beside(q1, q2, "|"@);
                match next_operator(q1, "|"@) {
                    Err(error1) => {},
                    Ok((q1, false)) => {},
                    Ok((q1, true)) => {
                        if let Ok((q2, true)) = next_operator(q2, "|"@) {
                            take_beside(q1, q2);
                            match take(q1) {
                                Err(error1) => {},
                                Ok((q1, _)) => {
                                    if let Ok((q2, _)) = take(q2) {
                                        if advances(p1, q1) {
                                            parsed_alternatives_list_beside(
                                                q1,
                                                q2,
                                                found1,
                                                depth1,
                                                depth2,
                                            );
                                        }
                                    }
                                },
                            }
                        }
                    },
                }
            }
        },
    }
}

proof fn parsed_guard_beside(
    p1: Parsing,
    p2: Parsing,
    depth1: int,
    depth2: int,
)
    ensures
        beside(p1, p2) ==> (
        parsed_guard(p1, depth1) matches Ok((q1, v1)) ==> (match parsed_guard(p2, depth2) {
            Ok((q2, v2)) => beside(q1, q2) && v2 == v1,
            Err(error) => too_deep(error) && depth1 != depth2,
        })),
    decreases room(depth1), 84int, 0int,
{
    parsed_guard_rule(p1, depth1);
    parsed_guard_rule(p2, depth2);
    reveal_strlit("if");
    next_reads_beside(p1, p2, "if"@);
    match next_reads(p1, "if"@) {
        Err(error1) => {},
        Ok((p1, false)) => {},
        Ok((p1, true)) => {
            if let Ok((p2, true)) = next_reads(p2, "if"@) {
                take_beside(p1, p2);
                match take(p1) {
                    Err(error1) => {},
                    Ok((p1, _)) => {
                        if let Ok((p2, _)) = take(p2) {
                            parsed_expression_beside(p1, p2, 0, depth1 + 1, depth2 + 1);
                        }
                    },
                }
            }
        },
    }
}

proof fn arm_bound_beside(
    p1: Parsing,
    p2: Parsing,
    name: Option<Seq<char>>,
    guard: Option<ExprId>,
    branch: ExprId,
    scrutinee: ExprId,
    word1: Word,
    word2: Word,
    depth1: int,
    depth2: int,
)
    ensures
        beside(p1, p2) && word2 == moved_word(word1) ==> (
        arm_bound(p1, name, guard, branch, scrutinee, word1, depth1) matches Ok(q1)
            ==> (match arm_bound(p2, name, guard, branch, scrutinee, word2, depth2) {
            Ok(q2) => beside(q1, q2),
            Err(error) => too_deep(error) && depth1 != depth2,
        })),
{
    reveal(arm_bound);
    match name {
        None => {},
        Some(name1) => {
            if let Some(name2) = name {
                match form_of(p1, scrutinee, word1.span) {
                    Err(error1) => {},
                    Ok(form1) => {
                        if let Ok(form2) = form_of(p2, scrutinee, word2.span) {
                            substituted_all_beside(
                                p1.length,
                                p2.length,
                                p1.nodes,
                                p2.nodes,
                                seq![guard, Some(branch)],
                                2,
                                name1,
                                form1,
                                depth1 + 1,
                                depth2 + 1,
                            );
                        }
                    },
                }
            }
        },
    }
}

proof fn parsed_arm_beside(
    p1: Parsing,
    p2: Parsing,
    alternatives: Seq<Pattern>,
    scrutinee: ExprId,
    word1: Word,
    word2: Word,
    depth1: int,
    depth2: int,
)
    ensures
        beside(p1, p2) && word2 == moved_word(word1) ==> (
        parsed_arm(p1, alternatives, scrutinee, word1, depth1) matches Ok((q1, v1))
            ==> (match parsed_arm(p2, alternatives, scrutinee, word2, depth2) {
            Ok((q2, v2)) => beside(q1, q2) && v2 == v1,
            Err(error) => too_deep(error) && depth1 != depth2,
        })),
    decreases room(depth1), 86int, 0int,
{
    parsed_arm_rule(p1, alternatives, scrutinee, word1, depth1);
    parsed_arm_rule(p2, alternatives, scrutinee, word2, depth2);
    reveal(arm_binding);
    match arm_binding(p1, alternatives) {
        Err(error1) => {},
        Ok(name1) => {
            if let Ok(name2) = arm_binding(p2, alternatives) {
                parsed_guard_beside(p1, p2, depth1, depth2);
                match parsed_guard(p1, depth1) {
                    Err(error1) => {},
                    Ok((p1, guard1)) => {
                        if let Ok((p2, guard2)) = parsed_guard(p2, depth2) {
                            expect_kind_beside(
                                p1,
                                p2,
                                TokenKind::FatArrow,
                                ExpressionErrorKind::ExpectedFatArrow,
                            );
                            match expect_kind(
                p1,
                TokenKind::FatArrow,
                ExpressionErrorKind::ExpectedFatArrow,
            ) {
                                Err(error1) => {},
                                Ok((p1, _)) => {
                                    if let Ok((p2, _)) = expect_kind(
                p2,
                TokenKind::FatArrow,
                ExpressionErrorKind::ExpectedFatArrow,
            ) {
                                        next_is_beside(p1, p2, TokenKind::OpenBrace);
                                        match next_is(p1, TokenKind::OpenBrace) {
                                            Err(error1) => {},
                                            Ok((p1, block1)) => {
                                                if let Ok((p2, block2)) = next_is(p2, TokenKind::OpenBrace) {
                                                    parsed_expression_beside(
                                                        p1,
                                                        p2,
                                                        0,
                                                        depth1 + 1,
                                                        depth2 + 1,
                                                    );
                                                    match parsed_expression(p1, 0, depth1 + 1) {
                                                        Err(error1) => {},
                                                        Ok((p1, branch1)) => {
                                                            if let Ok((p2, branch2)) = parsed_expression(p2, 0, depth2 + 1) {
                                                                arm_bound_beside(
                                                                    p1,
                                                                    p2,
                                                                    name1,
                                                                    guard1,
                                                                    branch1,
                                                                    scrutinee,
                                                                    word1,
                                                                    word2,
                                                                    depth1,
                                                                    depth2,
                                                                );
                                                            }
                                                        },
                                                    }
                                                }
                                            },
                                        }
                                    }
                                },
                            }
                        }
                    },
                }
            }
        },
    }
}

proof fn parsed_break_operand_beside(
    p1: Parsing,
    p2: Parsing,
    depth1: int,
    depth2: int,
)
    ensures
        beside(p1, p2) ==> (
        parsed_break_operand(p1, depth1) matches Ok((q1, v1))
            ==> (match parsed_break_operand(p2, depth2) {
            Ok((q2, v2)) => beside(q1, q2) && v2 == v1,
            Err(error) => too_deep(error) && depth1 != depth2,
        })),
    decreases room(depth1), 30int, 0int,
{
    parsed_break_operand_rule(p1, depth1);
    parsed_break_operand_rule(p2, depth2);
    next_is_beside(p1, p2, TokenKind::Semicolon);
    match next_is(p1, TokenKind::Semicolon) {
        Err(error1) => {},
        Ok((p1, true)) => {
            if let Ok((p2, true)) = next_is(p2, TokenKind::Semicolon) {
                take_beside(p1, p2);
                match take(p1) {
                    Err(error1) => {},
                    Ok((p1, semicolon1)) => {
                        if let Ok((p2, semicolon2)) = take(p2) {
                            push_unit_at_beside(p1, p2, semicolon1->0, semicolon2->0);
                        }
                    },
                }
            }
        },
        Ok((p1, false)) => {
            if let Ok((p2, false)) = next_is(p2, TokenKind::Semicolon) {
                parsed_expression_beside(p1, p2, 0, depth1 + 1, depth2 + 1);
                match parsed_expression(p1, 0, depth1 + 1) {
                    Err(error1) => {},
                    Ok((p1, operand1)) => {
                        if let Ok((p2, operand2)) = parsed_expression(p2, 0, depth2 + 1) {
                            expect_kind_beside(
                                p1,
                                p2,
                                TokenKind::Semicolon,
                                ExpressionErrorKind::TrailingToken,
                            );
                        }
                    },
                }
            }
        },
    }
}

proof fn parsed_branch_operand_beside(
    p1: Parsing,
    p2: Parsing,
    depth1: int,
    depth2: int,
)
    ensures
        beside(p1, p2) ==> (
        parsed_branch_operand(p1, depth1) matches Ok((q1, v1))
            ==> (match parsed_branch_operand(p2, depth2) {
            Ok((q2, v2)) => beside(q1, q2) && v2 == v1,
            Err(error) => too_deep(error) && depth1 != depth2,
        })),
    decreases room(depth1), 30int, 0int,
{
    parsed_branch_operand_rule(p1, depth1);
    parsed_branch_operand_rule(p2, depth2);
    next_is_beside(p1, p2, TokenKind::Semicolon);
    match next_is(p1, TokenKind::Semicolon) {
        Err(error1) => {},
        Ok((p1, true)) => {
            if let Ok((p2, true)) = next_is(p2, TokenKind::Semicolon) {
                take_beside(p1, p2);
                match take(p1) {
                    Err(error1) => {},
                    Ok((p1, semicolon1)) => {
                        if let Ok((p2, semicolon2)) = take(p2) {
                            push_unit_at_beside(p1, p2, semicolon1->0, semicolon2->0);
                        }
                    },
                }
            }
        },
        Ok((p1, false)) => {
            if let Ok((p2, false)) = next_is(p2, TokenKind::Semicolon) {
                parsed_expression_beside(p1, p2, 0, depth1 + 1, depth2 + 1);
                match parsed_expression(p1, 0, depth1 + 1) {
                    Err(error1) => {},
                    Ok((p1, operand1)) => {
                        if let Ok((p2, operand2)) = parsed_expression(p2, 0, depth2 + 1) {
                            next_is_beside(p1, p2, TokenKind::CloseBrace);
                            match next_is(p1, TokenKind::CloseBrace) {
                                Err(error1) => {},
                                Ok((p1, true)) => {},
                                Ok((p1, false)) => {
                                    if let Ok((p2, false)) = next_is(p2, TokenKind::CloseBrace) {
                                        expect_kind_beside(
                                            p1,
                                            p2,
                                            TokenKind::Semicolon,
                                            ExpressionErrorKind::TrailingToken,
                                        );
                                    }
                                },
                            }
                        }
                    },
                }
            }
        },
    }
}

proof fn parsed_condition_operand_beside(
    p1: Parsing,
    p2: Parsing,
    depth1: int,
    depth2: int,
)
    ensures
        beside(p1, p2) ==> (
        parsed_condition_operand(p1, depth1) matches Ok((q1, v1))
            ==> (match parsed_condition_operand(p2, depth2) {
            Ok((q2, v2)) => beside(q1, q2) && v2 == v1,
            Err(error) => too_deep(error) && depth1 != depth2,
        })),
    decreases room(depth1), 30int, 0int,
{
    parsed_condition_operand_rule(p1, depth1);
    parsed_condition_operand_rule(p2, depth2);
    next_is_beside(p1, p2, TokenKind::OpenBrace);
    match next_is(p1, TokenKind::OpenBrace) {
        Err(error1) => {},
        Ok((p1, true)) => {
            if let Ok((p2, true)) = next_is(p2, TokenKind::OpenBrace) {
                push_unit_at_beside(p1, p2, front(p1)->0, front(p2)->0);
            }
        },
        Ok((p1, false)) => {
            if let Ok((p2, false)) = next_is(p2, TokenKind::OpenBrace) {
                parsed_expression_beside(p1, p2, 0, depth1 + 1, depth2 + 1);
            }
        },
    }
}

proof fn parsed_loop_beside(
    p1: Parsing,
    p2: Parsing,
    word1: Word,
    word2: Word,
    label1: Option<Word>,
    label2: Option<Word>,
    depth1: int,
    depth2: int,
)
    ensures
        beside(p1, p2) && word2 == moved_word(word1) && label2 == moved_option(label1) ==> (
        parsed_loop(p1, word1, label1, depth1) matches Ok((q1, v1))
            ==> (match parsed_loop(p2, word2, label2, depth2) {
            Ok((q2, v2)) => beside(q1, q2) && v2 == v1,
            Err(error) => too_deep(error) && depth1 != depth2,
        })),
    decreases room(depth1), 100int, 0int,
{
    parsed_loop_rule(p1, word1, label1, depth1);
    parsed_loop_rule(p2, word2, label2, depth2);
    reveal_strlit("while");
    if level_refused(depth1) {
    } else {
        expect_kind_beside(p1, p2, TokenKind::OpenBrace, ExpressionErrorKind::ExpectedOpenBrace);
        match expect_kind(p1, TokenKind::OpenBrace, ExpressionErrorKind::ExpectedOpenBrace) {
            Err(error1) => {},
            Ok((p1, _)) => {
                if let Ok((p2, _)) = expect_kind(p2, TokenKind::OpenBrace, ExpressionErrorKind::ExpectedOpenBrace) {
                    peek_beside(p1, p2);
                    match peek(p1) {
                        Err(error1) => {},
                        Ok(p1) => {
                            if let Ok(p2) = peek(p2) {
                                if is_kind(front(p1), TokenKind::Lifetime) {
                                    parsed_nested_loop_beside(
                                        p1,
                                        p2,
                                        word1,
                                        word2,
                                        label1,
                                        label2,
                                        depth1 + 1,
                                        depth2 + 1,
                                    );
                                } else {
                                    if is_text(front(p1), "while"@) {
                                        take_beside(p1, p2);
                                        match take(p1) {
                                            Err(error1) => {},
                                            Ok((p1, _)) => {
                                                if let Ok((p2, _)) = take(p2) {
                                                    parsed_while_beside(
                                                        p1,
                                                        p2,
                                                        word1,
                                                        word2,
                                                        label1,
                                                        label2,
                                                        None,
                                                        None,
                                                        depth1 + 1,
                                                        depth2 + 1,
                                                    );
                                                }
                                            },
                                        }
                                    } else {
                                        take_beside(p1, p2);
                                        match take(p1) {
                                            Err(error1) => {},
                                            Ok((p1, control1)) => {
                                                if let Ok((p2, control2)) = take(p2) {
                                                    parsed_loop_branches_beside(
                                                        p1,
                                                        p2,
                                                        control1,
                                                        control2,
                                                        seq![],
                                                        seq![],
                                                        word1,
                                                        word2,
                                                        label1,
                                                        label2,
                                                        depth1,
                                                        depth2,
                                                    );
                                                    parsed_loop_branches_rule(
                                                        p1,
                                                        control1,
                                                        seq![],
                                                        seq![],
                                                        word1,
                                                        label1,
                                                        depth1,
                                                    );
                                                    match parsed_loop_branches(
                            p1,
                            control1,
                            seq![],
                            seq![],
                            word1,
                            label1,
                            depth1,
                        ) {
                                                        Err(error1) => {},
                                                        Ok((p1, exits1)) => {
                                                            if let Ok((p2, exits2)) = parsed_loop_branches(
                            p2,
                            control2,
                            seq![],
                            seq![],
                            word2,
                            label2,
                            depth2,
                        ) {
                                                                let span1 = Span {
                                    start: loop_start(word1, label1),
                                    end: exits1.close.span.end,
                                };
                                                                let span2 = Span {
                                    start: loop_start(word2, label2),
                                    end: exits2.close.span.end,
                                };
                                                                if exits1.conditions.len() == 0 {
                                                                    push_node_beside(
                                                                        p1,
                                                                        p2,
                                                                        Form::LoopBreak { operand: exits1.otherwise },
                                                                        span1,
                                                                        span2,
                                                                    );
                                                                } else {
                                                                    loop_exits_beside(
                                                                        p1,
                                                                        p2,
                                                                        exits1.conditions,
                                                                        exits1.branches,
                                                                        exits1.conditions.len() as int,
                                                                        exits1.otherwise,
                                                                        span1,
                                                                        span2,
                                                                    );
                                                                }
                                                            }
                                                        },
                                                    }
                                                }
                                            },
                                        }
                                    }
                                }
                            }
                        },
                    }
                }
            },
        }
    }
}

proof fn parsed_exit_beside(
    p1: Parsing,
    p2: Parsing,
    current1: Option<Word>,
    current2: Option<Word>,
    enclosing1: Option<Word>,
    enclosing2: Option<Word>,
    target: Option<ValueLoopControlTarget>,
    depth1: int,
    depth2: int,
)
    ensures
        beside(p1, p2) && current2 == moved_option(current1) && enclosing2 == moved_option(enclosing1) ==> (
        parsed_exit(p1, current1, enclosing1, target, depth1) matches Ok((q1, v1))
            ==> (match parsed_exit(p2, current2, enclosing2, target, depth2) {
            Ok((q2, v2)) => beside(q1, q2) && v2 == v1,
            Err(error) => too_deep(error) && depth1 != depth2,
        })),
    decreases room(depth1), 70int, 0int,
{
    parsed_exit_rule(p1, current1, enclosing1, target, depth1);
    parsed_exit_rule(p2, current2, enclosing2, target, depth2);
    parsed_expression_beside(p1, p2, 0, depth1 + 1, depth2 + 1);
    match parsed_expression(p1, 0, depth1 + 1) {
        Err(error1) => {},
        Ok((p1, condition1)) => {
            if let Ok((p2, condition2)) = parsed_expression(p2, 0, depth2 + 1) {
                expect_kind_beside(
                    p1,
                    p2,
                    TokenKind::OpenBrace,
                    ExpressionErrorKind::ExpectedOpenBrace,
                );
                match expect_kind(
            p1,
            TokenKind::OpenBrace,
            ExpressionErrorKind::ExpectedOpenBrace,
        ) {
                    Err(error1) => {},
                    Ok((p1, _)) => {
                        if let Ok((p2, _)) = expect_kind(
            p2,
            TokenKind::OpenBrace,
            ExpressionErrorKind::ExpectedOpenBrace,
        ) {
                            parsed_braced_break_beside(
                                p1,
                                p2,
                                current1,
                                current2,
                                enclosing1,
                                enclosing2,
                                target,
                                depth1,
                                depth2,
                            );
                        }
                    },
                }
            }
        },
    }
}

proof fn parsed_braced_break_beside(
    p1: Parsing,
    p2: Parsing,
    current1: Option<Word>,
    current2: Option<Word>,
    enclosing1: Option<Word>,
    enclosing2: Option<Word>,
    target: Option<ValueLoopControlTarget>,
    depth1: int,
    depth2: int,
)
    ensures
        beside(p1, p2) && current2 == moved_option(current1) && enclosing2 == moved_option(enclosing1) ==> (
        parsed_braced_break(p1, current1, enclosing1, target, depth1) matches Ok((q1, v1))
            ==> (match parsed_braced_break(p2, current2, enclosing2, target, depth2) {
            Ok((q2, v2)) => beside(q1, q2) && v2 == v1,
            Err(error) => too_deep(error) && depth1 != depth2,
        })),
    decreases room(depth1), 65int, 0int,
{
    parsed_braced_break_rule(p1, current1, enclosing1, target, depth1);
    parsed_braced_break_rule(p2, current2, enclosing2, target, depth2);
    reveal_strlit("break");
    expect_text_beside(p1, p2, "break"@, ExpressionErrorKind::ExpectedExpression);
    match expect_text(p1, "break"@, ExpressionErrorKind::ExpectedExpression) {
        Err(error1) => {},
        Ok((p1, word1)) => {
            if let Ok((p2, word2)) = expect_text(p2, "break"@, ExpressionErrorKind::ExpectedExpression) {
                parsed_break_target_beside(p1, p2, current1, current2, enclosing1, enclosing2);
                match parsed_break_target(p1, current1, enclosing1) {
                    Err(error1) => {},
                    Ok((p1, actual1)) => {
                        if let Ok((p2, actual2)) = parsed_break_target(p2, current2, enclosing2) {
                            if target is Some && target != Some(actual1) {
                            } else {
                                parsed_branch_operand_beside(p1, p2, depth1 + 1, depth2 + 1);
                                match parsed_branch_operand(p1, depth1 + 1) {
                                    Err(error1) => {},
                                    Ok((p1, operand1)) => {
                                        if let Ok((p2, operand2)) = parsed_branch_operand(p2, depth2 + 1) {
                                            expect_kind_beside(
                                                p1,
                                                p2,
                                                TokenKind::CloseBrace,
                                                ExpressionErrorKind::ExpectedCloseBrace,
                                            );
                                        }
                                    },
                                }
                            }
                        }
                    },
                }
            }
        },
    }
}

proof fn parsed_loop_branches_beside(
    p1: Parsing,
    p2: Parsing,
    control1: Option<Word>,
    control2: Option<Word>,
    conditions: Seq<ExprId>,
    branches: Seq<ExprId>,
    word1: Word,
    word2: Word,
    label1: Option<Word>,
    label2: Option<Word>,
    depth1: int,
    depth2: int,
)
    ensures
        beside(p1, p2) && control2 == moved_option(control1) && word2 == moved_word(word1) && label2 == moved_option(label1) ==> (
        parsed_loop_branches(p1, control1, conditions, branches, word1, label1, depth1) matches Ok((q1, v1))
            ==> (match parsed_loop_branches(p2, control2, conditions, branches, word2, label2, depth2) {
            Ok((q2, v2)) => beside(q1, q2) && v2 == moved_exits(v1),
            Err(error) => too_deep(error) && depth1 != depth2,
        })),
    decreases room(depth1), 90int, remaining(p1),
{
    parsed_loop_branches_rule(p1, control1, conditions, branches, word1, label1, depth1);
    parsed_loop_branches_rule(p2, control2, conditions, branches, word2, label2, depth2);
    reveal_strlit("break");
    reveal_strlit("else");
    reveal_strlit("if");
    if is_text(control1, "if"@) {
        if conditions.len() >= MAX_LOOP_BREAK_BRANCHES {
        } else {
            parsed_exit_beside(p1, p2, label1, label2, None, None, None, depth1, depth2);
            match parsed_exit(p1, label1, None, None, depth1) {
                Err(error1) => {},
                Ok((q1, (condition1, branch1))) => {
                    if let Ok((q2, (condition2, branch2))) = parsed_exit(p2, label2, None, None, depth2) {
                        take_beside(q1, q2);
                        match take(q1) {
                            Err(error1) => {},
                            Ok((q1, next1)) => {
                                if let Ok((q2, next2)) = take(q2) {
                                    let conditions1 = conditions.push(condition1);
                                    let conditions2 = conditions.push(condition2);
                                    let branches1 = branches.push(branch1);
                                    let branches2 = branches.push(branch2);
                                    if !is_text(next1, "else"@) {
                                        if advances(p1, q1) {
                                            parsed_loop_branches_beside(
                                                q1,
                                                q2,
                                                next1,
                                                next2,
                                                conditions1,
                                                branches1,
                                                word1,
                                                word2,
                                                label1,
                                                label2,
                                                depth1,
                                                depth2,
                                            );
                                            parsed_loop_branches_rule(
                                                q1,
                                                next1,
                                                conditions1,
                                                branches1,
                                                word1,
                                                label1,
                                                depth1,
                                            );
                                        }
                                    } else {
                                        take_beside(q1, q2);
                                        match take(q1) {
                                            Err(error1) => {},
                                            Ok((q1, alternative1)) => {
                                                if let Ok((q2, alternative2)) = take(q2) {
                                                    if is_text(alternative1, "if"@) {
                                                        if advances(p1, q1) {
                                                            parsed_loop_branches_beside(
                                                                q1,
                                                                q2,
                                                                alternative1,
                                                                alternative2,
                                                                conditions1,
                                                                branches1,
                                                                word1,
                                                                word2,
                                                                label1,
                                                                label2,
                                                                depth1,
                                                                depth2,
                                                            );
                                                            parsed_loop_branches_rule(
                                                                q1,
                                                                alternative1,
                                                                conditions1,
                                                                branches1,
                                                                word1,
                                                                label1,
                                                                depth1,
                                                            );
                                                        }
                                                    } else {
                                                        if !is_kind(alternative1, TokenKind::OpenBrace) {
                                                        } else {
                                                            parsed_braced_break_beside(
                                                                q1,
                                                                q2,
                                                                label1,
                                                                label2,
                                                                None,
                                                                None,
                                                                None,
                                                                depth1,
                                                                depth2,
                                                            );
                                                            match parsed_braced_break(q1, label1, None, None, depth1) {
                                                                Err(error1) => {},
                                                                Ok((q1, otherwise1)) => {
                                                                    if let Ok((q2, otherwise2)) = parsed_braced_break(q2, label2, None, None, depth2) {
                                                                        closed_loop_beside(
                                                                            q1,
                                                                            q2,
                                                                            conditions1,
                                                                            branches1,
                                                                            otherwise1,
                                                                        );
                                                                    }
                                                                },
                                                            }
                                                        }
                                                    }
                                                }
                                            },
                                        }
                                    }
                                }
                            },
                        }
                    }
                },
            }
        }
    } else {
        if !is_text(control1, "break"@) {
        } else {
            parsed_break_target_beside(p1, p2, label1, label2, None, None);
            match parsed_break_target(p1, label1, None) {
                Err(error1) => {},
                Ok((q1, _)) => {
                    if let Ok((q2, _)) = parsed_break_target(p2, label2, None) {
                        parsed_break_operand_beside(q1, q2, depth1 + 1, depth2 + 1);
                        match parsed_break_operand(q1, depth1 + 1) {
                            Err(error1) => {},
                            Ok((q1, operand1)) => {
                                if let Ok((q2, operand2)) = parsed_break_operand(q2, depth2 + 1) {
                                    next_reads_beside(q1, q2, "break"@);
                                    match next_reads(q1, "break"@) {
                                        Err(error1) => {},
                                        Ok((q1, false)) => {
                                            if let Ok((q2, false)) = next_reads(q2, "break"@) {
                                                closed_loop_beside(
                                                    q1,
                                                    q2,
                                                    conditions,
                                                    branches,
                                                    operand1,
                                                );
                                            }
                                        },
                                        Ok((q1, true)) => {
                                            if let Ok((q2, true)) = next_reads(q2, "break"@) {
                                                if conditions.len() >= MAX_LOOP_BREAK_BRANCHES {
                                                } else {
                                                    push_node_beside(
                                                        q1,
                                                        q2,
                                                        Form::Bool(true),
                                                        control1->0.span,
                                                        control2->0.span,
                                                    );
                                                    match push_node(q1, Form::Bool(true), control1->0.span) {
                                                        Err(error1) => {},
                                                        Ok((q1, condition1)) => {
                                                            if let Ok((q2, condition2)) = push_node(q2, Form::Bool(true), control2->0.span) {
                                                                take_beside(q1, q2);
                                                                match take(q1) {
                                                                    Err(error1) => {},
                                                                    Ok((q1, next1)) => {
                                                                        if let Ok((q2, next2)) = take(q2) {
                                                                            if advances(p1, q1) {
                                                                                parsed_loop_branches_beside(
                                                                                    q1,
                                                                                    q2,
                                                                                    next1,
                                                                                    next2,
                                                                                    conditions.push(condition1),
                                                                                    branches.push(operand1),
                                                                                    word1,
                                                                                    word2,
                                                                                    label1,
                                                                                    label2,
                                                                                    depth1,
                                                                                    depth2,
                                                                                );
                                                                                parsed_loop_branches_rule(
                                                                                    q1,
                                                                                    next1,
                                                                                    conditions.push(condition1),
                                                                                    branches.push(operand1),
                                                                                    word1,
                                                                                    label1,
                                                                                    depth1,
                                                                                );
                                                                            }
                                                                        }
                                                                    },
                                                                }
                                                            }
                                                        },
                                                    }
                                                }
                                            }
                                        },
                                    }
                                }
                            },
                        }
                    }
                },
            }
        }
    }
}

proof fn closed_loop_beside(
    p1: Parsing,
    p2: Parsing,
    conditions: Seq<ExprId>,
    branches: Seq<ExprId>,
    otherwise: ExprId,
)
    ensures
        beside(p1, p2) ==> (
        closed_loop(p1, conditions, branches, otherwise) matches Ok((q1, v1))
            ==> (match closed_loop(p2, conditions, branches, otherwise) {
            Ok((q2, v2)) => beside(q1, q2) && v2 == moved_exits(v1),
            Err(_) => false,
        })),
{
    expect_kind_beside(p1, p2, TokenKind::CloseBrace, ExpressionErrorKind::ExpectedCloseBrace);
}

proof fn parsed_nested_loop_beside(
    p1: Parsing,
    p2: Parsing,
    word1: Word,
    word2: Word,
    label1: Option<Word>,
    label2: Option<Word>,
    depth1: int,
    depth2: int,
)
    ensures
        beside(p1, p2) && word2 == moved_word(word1) && label2 == moved_option(label1) ==> (
        parsed_nested_loop(p1, word1, label1, depth1) matches Ok((q1, v1))
            ==> (match parsed_nested_loop(p2, word2, label2, depth2) {
            Ok((q2, v2)) => beside(q1, q2) && v2 == v1,
            Err(error) => too_deep(error) && depth1 != depth2,
        })),
    decreases room(depth1), 100int, 0int,
{
    parsed_nested_loop_rule(p1, word1, label1, depth1);
    parsed_nested_loop_rule(p2, word2, label2, depth2);
    reveal_strlit("loop");
    reveal_strlit("while");
    if level_refused(depth1) {
    } else {
        take_beside(p1, p2);
        match take(p1) {
            Err(error1) => {},
            Ok((p1, None)) => {},
            Ok((p1, Some(inner1))) => {
                if let Ok((p2, Some(inner2))) = take(p2) {
                    expect_kind_beside(
                        p1,
                        p2,
                        TokenKind::Colon,
                        ExpressionErrorKind::ExpectedColon,
                    );
                    match expect_kind(
                p1,
                TokenKind::Colon,
                ExpressionErrorKind::ExpectedColon,
            ) {
                        Err(error1) => {},
                        Ok((p1, _)) => {
                            if let Ok((p2, _)) = expect_kind(
                p2,
                TokenKind::Colon,
                ExpressionErrorKind::ExpectedColon,
            ) {
                                take_beside(p1, p2);
                                match take(p1) {
                                    Err(error1) => {},
                                    Ok((p1, keyword1)) => {
                                        if let Ok((p2, keyword2)) = take(p2) {
                                            if is_text(keyword1, "while"@) {
                                                parsed_while_beside(
                                                    p1,
                                                    p2,
                                                    word1,
                                                    word2,
                                                    label1,
                                                    label2,
                                                    Some(inner1),
                                                    Some(inner2),
                                                    depth1 + 1,
                                                    depth2 + 1,
                                                );
                                            } else {
                                                if !is_text(keyword1, "loop"@) {
                                                } else {
                                                    expect_kind_beside(
                                                        p1,
                                                        p2,
                                                        TokenKind::OpenBrace,
                                                        ExpressionErrorKind::ExpectedOpenBrace,
                                                    );
                                                    match expect_kind(
                            p1,
                            TokenKind::OpenBrace,
                            ExpressionErrorKind::ExpectedOpenBrace,
                        ) {
                                                        Err(error1) => {},
                                                        Ok((p1, _)) => {
                                                            if let Ok((p2, _)) = expect_kind(
                            p2,
                            TokenKind::OpenBrace,
                            ExpressionErrorKind::ExpectedOpenBrace,
                        ) {
                                                                take_beside(p1, p2);
                                                                match take(p1) {
                                                                    Err(error1) => {},
                                                                    Ok((p1, control1)) => {
                                                                        if let Ok((p2, control2)) = take(p2) {
                                                                            parsed_inner_branches_beside(
                                                                                p1,
                                                                                p2,
                                                                                control1,
                                                                                control2,
                                                                                seq![],
                                                                                seq![],
                                                                                inner1,
                                                                                inner2,
                                                                                label1,
                                                                                label2,
                                                                                depth1,
                                                                                depth2,
                                                                            );
                                                                            parsed_inner_branches_rule(
                                                                                p1,
                                                                                control1,
                                                                                seq![],
                                                                                seq![],
                                                                                inner1,
                                                                                label1,
                                                                                depth1,
                                                                            );
                                                                            match parsed_inner_branches(
                                    p1,
                                    control1,
                                    seq![],
                                    seq![],
                                    inner1,
                                    label1,
                                    depth1,
                                ) {
                                                                                Err(error1) => {},
                                                                                Ok((p1, exits1)) => {
                                                                                    if let Ok((p2, exits2)) = parsed_inner_branches(
                                    p2,
                                    control2,
                                    seq![],
                                    seq![],
                                    inner2,
                                    label2,
                                    depth2,
                                ) {
                                                                                        parsed_outer_exit_beside(
                                                                                            p1,
                                                                                            p2,
                                                                                            exits1,
                                                                                            word1,
                                                                                            word2,
                                                                                            label1,
                                                                                            label2,
                                                                                            depth1,
                                                                                            depth2,
                                                                                        );
                                                                                    }
                                                                                },
                                                                            }
                                                                        }
                                                                    },
                                                                }
                                                            }
                                                        },
                                                    }
                                                }
                                            }
                                        }
                                    },
                                }
                            }
                        },
                    }
                }
            },
        }
    }
}

proof fn parsed_inner_branches_beside(
    p1: Parsing,
    p2: Parsing,
    control1: Option<Word>,
    control2: Option<Word>,
    conditions: Seq<ExprId>,
    branches: Seq<ExprId>,
    inner1: Word,
    inner2: Word,
    label1: Option<Word>,
    label2: Option<Word>,
    depth1: int,
    depth2: int,
)
    ensures
        beside(p1, p2) && control2 == moved_option(control1) && inner2 == moved_word(inner1) && label2 == moved_option(label1) ==> (
        parsed_inner_branches(p1, control1, conditions, branches, inner1, label1, depth1) matches Ok((q1, v1))
            ==> (match parsed_inner_branches(p2, control2, conditions, branches, inner2, label2, depth2) {
            Ok((q2, v2)) => beside(q1, q2) && v2 == v1,
            Err(error) => too_deep(error) && depth1 != depth2,
        })),
    decreases room(depth1), 90int, remaining(p1),
{
    parsed_inner_branches_rule(p1, control1, conditions, branches, inner1, label1, depth1);
    parsed_inner_branches_rule(p2, control2, conditions, branches, inner2, label2, depth2);
    reveal_strlit("break");
    reveal_strlit("else");
    reveal_strlit("if");
    if is_text(control1, "if"@) {
        if conditions.len() >= MAX_LOOP_BREAK_BRANCHES {
        } else {
            parsed_exit_beside(
                p1,
                p2,
                Some(inner1),
                Some(inner2),
                label1,
                label2,
                Some(ValueLoopControlTarget::Enclosing),
                depth1,
                depth2,
            );
            match parsed_exit(
                p1,
                Some(inner1),
                label1,
                Some(ValueLoopControlTarget::Enclosing),
                depth1,
            ) {
                Err(error1) => {},
                Ok((q1, (condition1, branch1))) => {
                    if let Ok((q2, (condition2, branch2))) = parsed_exit(
                p2,
                Some(inner2),
                label2,
                Some(ValueLoopControlTarget::Enclosing),
                depth2,
            ) {
                        take_beside(q1, q2);
                        match take(q1) {
                            Err(error1) => {},
                            Ok((q1, next1)) => {
                                if let Ok((q2, next2)) = take(q2) {
                                    let conditions1 = conditions.push(condition1);
                                    let conditions2 = conditions.push(condition2);
                                    let branches1 = branches.push(branch1);
                                    let branches2 = branches.push(branch2);
                                    if !is_text(next1, "else"@) {
                                        if advances(p1, q1) {
                                            parsed_inner_branches_beside(
                                                q1,
                                                q2,
                                                next1,
                                                next2,
                                                conditions1,
                                                branches1,
                                                inner1,
                                                inner2,
                                                label1,
                                                label2,
                                                depth1,
                                                depth2,
                                            );
                                            parsed_inner_branches_rule(
                                                q1,
                                                next1,
                                                conditions1,
                                                branches1,
                                                inner1,
                                                label1,
                                                depth1,
                                            );
                                        }
                                    } else {
                                        take_beside(q1, q2);
                                        match take(q1) {
                                            Err(error1) => {},
                                            Ok((q1, alternative1)) => {
                                                if let Ok((q2, alternative2)) = take(q2) {
                                                    if is_text(alternative1, "if"@) {
                                                        if advances(p1, q1) {
                                                            parsed_inner_branches_beside(
                                                                q1,
                                                                q2,
                                                                alternative1,
                                                                alternative2,
                                                                conditions1,
                                                                branches1,
                                                                inner1,
                                                                inner2,
                                                                label1,
                                                                label2,
                                                                depth1,
                                                                depth2,
                                                            );
                                                            parsed_inner_branches_rule(
                                                                q1,
                                                                alternative1,
                                                                conditions1,
                                                                branches1,
                                                                inner1,
                                                                label1,
                                                                depth1,
                                                            );
                                                        }
                                                    } else {
                                                        if !is_kind(alternative1, TokenKind::OpenBrace) {
                                                        } else {
                                                            parsed_braced_break_beside(
                                                                q1,
                                                                q2,
                                                                Some(inner1),
                                                                Some(inner2),
                                                                label1,
                                                                label2,
                                                                Some(ValueLoopControlTarget::Current),
                                                                depth1,
                                                                depth2,
                                                            );
                                                            match parsed_braced_break(
                                        q1,
                                        Some(inner1),
                                        label1,
                                        Some(ValueLoopControlTarget::Current),
                                        depth1,
                                    ) {
                                                                Err(error1) => {},
                                                                Ok((q1, operand1)) => {
                                                                    if let Ok((q2, operand2)) = parsed_braced_break(
                                        q2,
                                        Some(inner2),
                                        label2,
                                        Some(ValueLoopControlTarget::Current),
                                        depth2,
                                    ) {
                                                                        expect_kind_beside(
                                                                            q1,
                                                                            q2,
                                                                            TokenKind::CloseBrace,
                                                                            ExpressionErrorKind::ExpectedCloseBrace,
                                                                        );
                                                                    }
                                                                },
                                                            }
                                                        }
                                                    }
                                                }
                                            },
                                        }
                                    }
                                }
                            },
                        }
                    }
                },
            }
        }
    } else {
        if !is_text(control1, "break"@) {
        } else {
            expect_break_target_beside(
                p1,
                p2,
                Some(inner1),
                Some(inner2),
                label1,
                label2,
                ValueLoopControlTarget::Current,
                control1,
                control2,
            );
            match expect_break_target(
            p1,
            Some(inner1),
            label1,
            ValueLoopControlTarget::Current,
            control1,
        ) {
                Err(error1) => {},
                Ok(q1) => {
                    if let Ok(q2) = expect_break_target(
            p2,
            Some(inner2),
            label2,
            ValueLoopControlTarget::Current,
            control2,
        ) {
                        parsed_break_operand_beside(q1, q2, depth1 + 1, depth2 + 1);
                        match parsed_break_operand(q1, depth1 + 1) {
                            Err(error1) => {},
                            Ok((q1, operand1)) => {
                                if let Ok((q2, operand2)) = parsed_break_operand(q2, depth2 + 1) {
                                    expect_kind_beside(
                                        q1,
                                        q2,
                                        TokenKind::CloseBrace,
                                        ExpressionErrorKind::ExpectedCloseBrace,
                                    );
                                }
                            },
                        }
                    }
                },
            }
        }
    }
}

proof fn parsed_last_exit_beside(
    p1: Parsing,
    p2: Parsing,
    label1: Option<Word>,
    label2: Option<Word>,
    depth1: int,
    depth2: int,
)
    ensures
        beside(p1, p2) && label2 == moved_option(label1) ==> (
        parsed_last_exit(p1, label1, depth1) matches Ok((q1, v1))
            ==> (match parsed_last_exit(p2, label2, depth2) {
            Ok((q2, v2)) => beside(q1, q2) && v2 == (v1.0, moved_word(v1.1)),
            Err(error) => too_deep(error) && depth1 != depth2,
        })),
    decreases room(depth1), 70int, 0int,
{
    parsed_last_exit_rule(p1, label1, depth1);
    parsed_last_exit_rule(p2, label2, depth2);
    reveal_strlit("break");
    expect_text_beside(p1, p2, "break"@, ExpressionErrorKind::ExpectedExpression);
    match expect_text(p1, "break"@, ExpressionErrorKind::ExpectedExpression) {
        Err(error1) => {},
        Ok((p1, outer_break1)) => {
            if let Ok((p2, outer_break2)) = expect_text(p2, "break"@, ExpressionErrorKind::ExpectedExpression) {
                expect_break_target_beside(
                    p1,
                    p2,
                    label1,
                    label2,
                    None,
                    None,
                    ValueLoopControlTarget::Current,
                    Some(outer_break1),
                    Some(outer_break2),
                );
                match expect_break_target(
            p1,
            label1,
            None,
            ValueLoopControlTarget::Current,
            Some(outer_break1),
        ) {
                    Err(error1) => {},
                    Ok(p1) => {
                        if let Ok(p2) = expect_break_target(
            p2,
            label2,
            None,
            ValueLoopControlTarget::Current,
            Some(outer_break2),
        ) {
                            parsed_break_operand_beside(p1, p2, depth1 + 1, depth2 + 1);
                            match parsed_break_operand(p1, depth1 + 1) {
                                Err(error1) => {},
                                Ok((p1, operand1)) => {
                                    if let Ok((p2, operand2)) = parsed_break_operand(p2, depth2 + 1) {
                                        expect_kind_beside(
                                            p1,
                                            p2,
                                            TokenKind::CloseBrace,
                                            ExpressionErrorKind::ExpectedCloseBrace,
                                        );
                                    }
                                },
                            }
                        }
                    },
                }
            }
        },
    }
}

proof fn parsed_outer_exit_beside(
    p1: Parsing,
    p2: Parsing,
    exits: InnerExits,
    word1: Word,
    word2: Word,
    label1: Option<Word>,
    label2: Option<Word>,
    depth1: int,
    depth2: int,
)
    ensures
        beside(p1, p2) && word2 == moved_word(word1) && label2 == moved_option(label1) ==> (
        parsed_outer_exit(p1, exits, word1, label1, depth1) matches Ok((q1, v1))
            ==> (match parsed_outer_exit(p2, exits, word2, label2, depth2) {
            Ok((q2, v2)) => beside(q1, q2) && v2 == v1,
            Err(error) => too_deep(error) && depth1 != depth2,
        })),
    decreases room(depth1), 80int, 0int,
{
    parsed_outer_exit_rule(p1, exits, word1, label1, depth1);
    parsed_outer_exit_rule(p2, exits, word2, label2, depth2);
    expect_kind_beside(p1, p2, TokenKind::Semicolon, ExpressionErrorKind::TrailingToken);
    match expect_kind(p1, TokenKind::Semicolon, ExpressionErrorKind::TrailingToken) {
        Err(error1) => {},
        Ok((p1, _)) => {
            if let Ok((p2, _)) = expect_kind(p2, TokenKind::Semicolon, ExpressionErrorKind::TrailingToken) {
                parsed_last_exit_beside(p1, p2, label1, label2, depth1, depth2);
                match parsed_last_exit(p1, label1, depth1) {
                    Err(error1) => {},
                    Ok((p1, (fallback1, close1))) => {
                        if let Ok((p2, (fallback2, close2))) = parsed_last_exit(p2, label2, depth2) {
                            let span1 = Span { start: loop_start(word1, label1), end: close1.span.end };
                            let span2 = Span { start: loop_start(word2, label2), end: close2.span.end };
                            push_node_beside(
                                p1,
                                p2,
                                Form::Sequence { first: exits.operand, then: fallback1 },
                                span1,
                                span2,
                            );
                            match push_node(
                    p1,
                    Form::Sequence { first: exits.operand, then: fallback1 },
                    span1,
                ) {
                                Err(error1) => {},
                                Ok((p1, otherwise1)) => {
                                    if let Ok((p2, otherwise2)) = push_node(
                    p2,
                    Form::Sequence { first: exits.operand, then: fallback2 },
                    span2,
                ) {
                                        loop_exits_beside(
                                            p1,
                                            p2,
                                            exits.conditions,
                                            exits.branches,
                                            exits.conditions.len() as int,
                                            otherwise1,
                                            span1,
                                            span2,
                                        );
                                    }
                                },
                            }
                        }
                    },
                }
            }
        },
    }
}

proof fn parsed_while_beside(
    p1: Parsing,
    p2: Parsing,
    word1: Word,
    word2: Word,
    label1: Option<Word>,
    label2: Option<Word>,
    inner1: Option<Word>,
    inner2: Option<Word>,
    depth1: int,
    depth2: int,
)
    ensures
        beside(p1, p2) && word2 == moved_word(word1) && label2 == moved_option(label1) && inner2 == moved_option(inner1) ==> (
        parsed_while(p1, word1, label1, inner1, depth1) matches Ok((q1, v1))
            ==> (match parsed_while(p2, word2, label2, inner2, depth2) {
            Ok((q2, v2)) => beside(q1, q2) && v2 == v1,
            Err(error) => too_deep(error) && depth1 != depth2,
        })),
    decreases room(depth1), 100int, 0int,
{
    parsed_while_rule(p1, word1, label1, inner1, depth1);
    parsed_while_rule(p2, word2, label2, inner2, depth2);
    reveal_strlit("break");
    all_moved_units_alike(depth1 + 1);
    if level_refused(depth1) {
    } else {
        expect_text_beside(p1, p2, "break"@, ExpressionErrorKind::ExpectedExpression);
        match expect_text(p1, "break"@, ExpressionErrorKind::ExpectedExpression) {
            Err(error1) => {},
            Ok((p1, break_word1)) => {
                if let Ok((p2, break_word2)) = expect_text(p2, "break"@, ExpressionErrorKind::ExpectedExpression) {
                    parsed_break_target_beside(p1, p2, inner1, inner2, label1, label2);
                    match parsed_break_target(p1, inner1, label1) {
                        Err(error1) => {},
                        Ok((p1, target1)) => {
                            if let Ok((p2, target2)) = parsed_break_target(p2, inner2, label2) {
                                parsed_condition_operand_beside(p1, p2, depth1 + 1, depth2 + 1);
                                match parsed_condition_operand(p1, depth1 + 1) {
                                    Err(error1) => {},
                                    Ok((p1, operand1)) => {
                                        if let Ok((p2, operand2)) = parsed_condition_operand(p2, depth2 + 1) {
                                            if target1 == ValueLoopControlTarget::Current && !unit_form(
                        p1.nodes,
                        operand1,
                        depth1 + 1,
                    ) {
                                            } else {
                                                expect_kind_beside(
                                                    p1,
                                                    p2,
                                                    TokenKind::OpenBrace,
                                                    ExpressionErrorKind::ExpectedOpenBrace,
                                                );
                                                match expect_kind(
                            p1,
                            TokenKind::OpenBrace,
                            ExpressionErrorKind::ExpectedOpenBrace,
                        ) {
                                                    Err(error1) => {},
                                                    Ok((p1, _)) => {
                                                        if let Ok((p2, _)) = expect_kind(
                            p2,
                            TokenKind::OpenBrace,
                            ExpressionErrorKind::ExpectedOpenBrace,
                        ) {
                                                            skipped_body_beside(p1, p2, 1);
                                                            match skipped_body(p1, 1) {
                                                                Err(error1) => {},
                                                                Ok(p1) => {
                                                                    if let Ok(p2) = skipped_body(p2, 1) {
                                                                        if target1 == ValueLoopControlTarget::Enclosing {
                                                                            expect_kind_beside(
                                                                                p1,
                                                                                p2,
                                                                                TokenKind::CloseBrace,
                                                                                ExpressionErrorKind::ExpectedCloseBrace,
                                                                            );
                                                                            match expect_kind(
                                        p1,
                                        TokenKind::CloseBrace,
                                        ExpressionErrorKind::ExpectedCloseBrace,
                                    ) {
                                                                                Err(error1) => {},
                                                                                Ok((p1, close1)) => {
                                                                                    if let Ok((p2, close2)) = expect_kind(
                                        p2,
                                        TokenKind::CloseBrace,
                                        ExpressionErrorKind::ExpectedCloseBrace,
                                    ) {
                                                                                        push_node_beside(
                                                                                            p1,
                                                                                            p2,
                                                                                            Form::LoopBreak { operand: operand1 },
                                                                                            Span {
                                                start: loop_start(word1, label1),
                                                end: close1.span.end,
                                            },
                                                                                            Span {
                                                start: loop_start(word2, label2),
                                                end: close2.span.end,
                                            },
                                                                                        );
                                                                                    }
                                                                                },
                                                                            }
                                                                        } else {
                                                                            parsed_last_exit_beside(
                                                                                p1,
                                                                                p2,
                                                                                label1,
                                                                                label2,
                                                                                depth1,
                                                                                depth2,
                                                                            );
                                                                            match parsed_last_exit(p1, label1, depth1) {
                                                                                Err(error1) => {},
                                                                                Ok((p1, (fallback1, close1))) => {
                                                                                    if let Ok((p2, (fallback2, close2))) = parsed_last_exit(p2, label2, depth2) {
                                                                                        push_node_beside(
                                                                                            p1,
                                                                                            p2,
                                                                                            Form::Sequence { first: operand1, then: fallback1 },
                                                                                            Span {
                                                start: loop_start(word1, label1),
                                                end: close1.span.end,
                                            },
                                                                                            Span {
                                                start: loop_start(word2, label2),
                                                end: close2.span.end,
                                            },
                                                                                        );
                                                                                    }
                                                                                },
                                                                            }
                                                                        }
                                                                    }
                                                                },
                                                            }
                                                        }
                                                    },
                                                }
                                            }
                                        }
                                    },
                                }
                            }
                        },
                    }
                }
            },
        }
    }
}

/// A text between two parentheses.
pub open spec fn in_parentheses(text: Seq<char>) -> Seq<char> {
    seq!['('] + text + seq![')']
}

/// Whether the blanks and comments at `i` end with a line comment that runs to the end of the text.
pub open spec fn blank_runs_out(c: Seq<char>, i: int) -> bool
    decreases c.len() - i,
{
    if !(0 <= i < c.len()) {
        false
    } else if is_blank(c[i]) {
        blank_runs_out(c, i + 1)
    } else if c[i] == '/' && char_at(c, i + 1) == '/' {
        if i < line_end(c, i + 2) < c.len() {
            blank_runs_out(c, line_end(c, i + 2))
        } else {
            true
        }
    } else if c[i] == '/' && char_at(c, i + 1) == '*' {
        match comment_end(c, i + 2) {
            Some(end) => i < end <= c.len() && blank_runs_out(c, end),
            None => false,
        }
    } else {
        false
    }
}

/// Where the last lexeme of several ends, the first of which is looked for at `i`.
pub open spec fn lexemes_end(lexemes: Seq<Lexeme>, i: int) -> int {
    if lexemes.len() == 0 {
        i
    } else {
        lexemes.last().end
    }
}

/// Whether a text ends in a line comment.
pub open spec fn ends_in_line_comment(text: Seq<char>) -> bool {
    blank_runs_out(text, lexemes_end(lexing(text).lexemes, 0))
}

/// Whether the first word of a text is `return`.
pub open spec fn begins_with_return(text: Seq<char>) -> bool {
    let lexemes = lexing(text).lexemes;
    lexemes.len() > 0 && text.subrange(lexemes[0].start, lexemes[0].end) == "return"@
}

/// A tree whose text stands one character further on.
pub open spec fn moved_tree(tree: Tree) -> Tree {
    Tree { nodes: moved_nodes(tree.nodes), ..tree }
}

/// The tree of a text that stands on a level of nesting.
pub open spec fn tree_on_level(text: Seq<char>, limit: int, depth: int) -> Result<
    Tree,
    ExpressionError,
> {
    parsed_tree(first_state(text, limit), depth)
}

/// Whether a text takes at most `levels` levels of nesting: it is read wherever there are so many
/// before the limit.
pub open spec fn nests_within(text: Seq<char>, limit: int, levels: int) -> bool {
    forall|depth: int|
        depth + levels <= MAX_EXPRESSION_DEPTH ==> #[trigger] tree_on_level(
            text,
            limit,
            depth,
        ) is Ok
}

/// Parentheses around a text add no node and change no meaning: the tree is the same, one
/// character further on, unless it now nests too deep. A line comment at the end would reach over
/// the closing parenthesis, and `return` stands at the beginning of a text only.
pub proof fn parentheses_around_a_text_move_the_tree(text: Seq<char>, limit: int, tree: Tree)
    requires
        !ends_in_line_comment(text),
        !begins_with_return(text),
        bytes_before(text, text.len() as int) + 2 <= usize::MAX,
        expression_tree(text, limit) == Ok::<Tree, ExpressionError>(tree),
    ensures
        match expression_tree(in_parentheses(text), limit) {
            Ok(moved) => moved == moved_tree(tree),
            Err(error) => too_deep(error),
        },
{
    text_in_parentheses(text, limit, 0, 0);
}

/// Parentheses around a text take four levels of nesting more than the text. Where the text leaves
/// so many before the limit, it is read in parentheses too, and its tree is the same, one character
/// further on.
pub proof fn parentheses_take_four_levels(text: Seq<char>, limit: int, levels: int)
    requires
        !ends_in_line_comment(text),
        !begins_with_return(text),
        bytes_before(text, text.len() as int) + 2 <= usize::MAX,
        0 <= levels,
        nests_within(text, limit, levels),
    ensures
        nests_within(in_parentheses(text), limit, levels + 4),
        levels + 4 <= MAX_EXPRESSION_DEPTH ==> expression_tree(in_parentheses(text), limit) == Ok::<
            Tree,
            ExpressionError,
        >(moved_tree(expression_tree(text, limit)->Ok_0)),
{
    assert forall|depth: int| depth + (levels + 4) <= MAX_EXPRESSION_DEPTH implies #[trigger]
    tree_on_level(in_parentheses(text), limit, depth) is Ok by {
        assert(tree_on_level(text, limit, depth + 4) is Ok);
        text_in_parentheses(text, limit, depth + 4, depth);
    }
    if levels + 4 <= MAX_EXPRESSION_DEPTH {
        assert(tree_on_level(text, limit, 0) is Ok);
        assert(tree_on_level(in_parentheses(text), limit, 0) is Ok);
        text_in_parentheses(text, limit, 0, 0);
    }
}

/// A number alone takes four levels of nesting at most.
pub proof fn a_number_takes_four_levels(text: Seq<char>, limit: int)
    requires
        lexing(text).lexemes.len() == 1,
        lexing(text).lexemes[0].kind == TokenKind::Integer,
        expression_tree(text, limit) is Ok,
    ensures
        nests_within(text, limit, 4),
{
    let p = first_state(text, limit);
    if p.failure is Some {
        failed_texts_have_no_tree(p, 0);
    } else {
        number_on_level(text, limit, 0);
        assert forall|depth: int| depth + 4 <= MAX_EXPRESSION_DEPTH implies #[trigger]
        tree_on_level(text, limit, depth) is Ok by {
            number_on_level(text, limit, depth);
        }
    }
}

/// What a number stands for does not depend on its level of nesting.
proof fn number_on_level(text: Seq<char>, limit: int, depth: int)
    requires
        lexing(text).lexemes.len() == 1,
        lexing(text).lexemes[0].kind == TokenKind::Integer,
        first_state(text, limit).failure is None,
        depth + 3 < MAX_EXPRESSION_DEPTH,
    ensures
        ({
            let p = first_state(text, limit);
            tree_on_level(text, limit, depth) is Ok <==> push_integer(
                take(p)->Ok_0.0,
                p.words[0],
            ) is Ok
        }),
{
    let p = first_state(text, limit);
    let word = p.words[0];
    let lexeme = lexing(text).lexemes[0];
    assert(lexeme == lexeme_at(text, blank_end(text, 0)->Ok_0)->Ok_0);
    name_end_in_parentheses(text, lexeme.start + 1);
    assert(word.text == text.subrange(lexeme.start, lexeme.end));
    assert(word.text[0] == text[lexeme.start]);
    reveal_strlit("return");
    reveal_strlit("break");
    reveal_strlit("-");
    reveal_strlit("!");
    reveal_strlit("*");
    reveal_strlit("&");
    assert("return"@[0] == 'r' && "break"@[0] == 'b' && "-"@[0] == '-' && "!"@[0] == '!' && "*"@[0]
        == '*' && "&"@[0] == '&');
    let q = peek(p)->Ok_0;
    let r = take(p)->Ok_0.0;
    assert(front(q) == Some(word));
    assert(take(q) == Ok::<(Parsing, Option<Word>), ExpressionError>((r, Some(word))));
    assert(next_reads(p, "return"@) == Ok::<(Parsing, bool), ExpressionError>((q, false)));
    parsed_expression_rule(q, 0, depth);
    parsed_cast_rule(q, depth + 1);
    parsed_unary_rule(q, depth + 2);
    parsed_postfix_rule(q, depth + 3);
    parsed_atom_rule(q, depth + 3);
    parsed_atom_from_rule(r, word, depth + 3);
    if let Ok((z, id)) = push_integer(r, word) {
        parsed_suffixes_rule(z, id, depth + 3);
        parsed_operators_rule(z, id, 0, depth);
        assert(peek(z) == Ok::<Parsing, ExpressionError>(z));
        assert(front(z) is None);
        assert(parsed_casts(z, id) == Ok::<(Parsing, ExprId), ExpressionError>((z, id)));
    }
}

/// A text on one level of nesting, and the same text in parentheses on another.
proof fn text_in_parentheses(text: Seq<char>, limit: int, depth: int, outside: int)
    requires
        !ends_in_line_comment(text),
        !begins_with_return(text),
        bytes_before(text, text.len() as int) + 2 <= usize::MAX,
        outside + 3 < MAX_EXPRESSION_DEPTH,
        tree_on_level(text, limit, depth) is Ok,
    ensures
        match tree_on_level(in_parentheses(text), limit, outside) {
            Ok(moved) => moved == moved_tree(tree_on_level(text, limit, depth)->Ok_0),
            Err(error) => too_deep(error) && depth != outside + 4,
        },
{
    let p1 = first_state(text, limit);
    let outer = first_state(in_parentheses(text), limit);
    lexing_in_parentheses(text);
    states_beside(text, limit);
    if p1.failure is Some {
        failed_texts_have_no_tree(p1, depth);
    } else {
        reveal_strlit("return");
        reveal_strlit("(");
        let p2 = Parsing { position: 1, ..outer };
        peek_beside(p1, p2);
        let q1 = peek(p1)->Ok_0;
        assert(next_reads(p1, "return"@) == Ok::<(Parsing, bool), ExpressionError>((q1, false)));
        first_word_is_no_closing(text, limit, depth);
        parenthesized_text(text, limit, q1, outer, depth, outside);
    }
}

proof fn name_end_in_parentheses(c: Seq<char>, i: int)
    requires
        0 <= i <= c.len(),
    ensures
        name_end(in_parentheses(c), i + 1) == name_end(c, i) + 1,
        i <= name_end(c, i) <= c.len(),
    decreases c.len() - i,
{
    let d = in_parentheses(c);
    if i < c.len() {
        assert(d[i + 1] == c[i]);
        if continues_name(c[i]) {
            name_end_in_parentheses(c, i + 1);
        }
    } else {
        assert(d[i + 1] == ')');
    }
}

proof fn quote_end_in_parentheses(c: Seq<char>, i: int)
    requires
        0 <= i <= c.len(),
    ensures
        quote_end(c, i) matches Some(end) ==> i <= end < c.len() && quote_end(
            in_parentheses(c),
            i + 1,
        ) == Some(end + 1),
    decreases c.len() - i,
{
    let d = in_parentheses(c);
    if i < c.len() {
        assert(d[i + 1] == c[i]);
        if c[i] == '\'' {
        } else if c[i] == '\\' && i + 1 < c.len() {
            quote_end_in_parentheses(c, i + 2);
        } else {
            quote_end_in_parentheses(c, i + 1);
        }
    }
}

proof fn line_end_in_parentheses(c: Seq<char>, i: int)
    requires
        0 <= i <= c.len(),
    ensures
        i <= line_end(c, i) <= c.len(),
        line_end(c, i) < c.len() ==> line_end(in_parentheses(c), i + 1) == line_end(c, i) + 1,
    decreases c.len() - i,
{
    let d = in_parentheses(c);
    if i < c.len() {
        assert(d[i + 1] == c[i]);
        if c[i] != '\n' {
            line_end_in_parentheses(c, i + 1);
        }
    }
}

proof fn comment_end_in_parentheses(c: Seq<char>, i: int)
    requires
        0 <= i,
    ensures
        comment_end(c, i) matches Some(end) ==> i < end <= c.len() && comment_end(
            in_parentheses(c),
            i + 1,
        ) == Some(end + 1),
    decreases c.len() - i,
{
    let d = in_parentheses(c);
    if i + 1 < c.len() {
        assert(d[i + 1] == c[i]);
        assert(d[i + 2] == c[i + 1]);
        comment_end_in_parentheses(c, i + 1);
    }
}

/// Blanks that run out leave nothing.
proof fn nothing_behind_blanks_that_run_out(c: Seq<char>, i: int)
    requires
        blank_runs_out(c, i),
    ensures
        blank_end(c, i) == Ok::<int, LexError>(c.len() as int),
    decreases c.len() - i,
{
    if is_blank(c[i]) {
        nothing_behind_blanks_that_run_out(c, i + 1);
    } else if char_at(c, i + 1) == '/' {
        line_end_in_parentheses(c, i + 2);
        if line_end(c, i + 2) < c.len() {
            nothing_behind_blanks_that_run_out(c, line_end(c, i + 2));
        } else {
            assert(blank_end(c, c.len() as int) == Ok::<int, LexError>(c.len() as int));
        }
    } else {
        nothing_behind_blanks_that_run_out(c, comment_end(c, i + 2)->Some_0);
    }
}

proof fn blank_end_in_parentheses(c: Seq<char>, i: int)
    requires
        0 <= i <= c.len(),
        !blank_runs_out(c, i),
    ensures
        blank_end(c, i) matches Ok(end) ==> i <= end <= c.len() && blank_end(
            in_parentheses(c),
            i + 1,
        ) == Ok::<int, LexError>(end + 1),
    decreases c.len() - i,
{
    let d = in_parentheses(c);
    if i < c.len() {
        assert(d[i + 1] == c[i]);
        if i + 1 < c.len() {
            assert(d[i + 2] == c[i + 1]);
        } else {
            assert(d[i + 2] == ')');
        }
        if is_blank(c[i]) {
            blank_end_in_parentheses(c, i + 1);
        } else if c[i] == '/' && char_at(c, i + 1) == '/' {
            line_end_in_parentheses(c, i + 2);
            blank_end_in_parentheses(c, line_end(c, i + 2));
        } else if c[i] == '/' && char_at(c, i + 1) == '*' {
            comment_end_in_parentheses(c, i + 2);
            if let Some(end) = comment_end(c, i + 2) {
                blank_end_in_parentheses(c, end);
            }
        }
    } else {
        assert(d[i + 1] == ')');
    }
}

/// A lexeme one character further on.
spec fn moved_lexeme(lexeme: Lexeme) -> Lexeme {
    Lexeme { kind: lexeme.kind, start: lexeme.start + 1, end: lexeme.end + 1 }
}

proof fn lexeme_in_parentheses(c: Seq<char>, i: int)
    requires
        0 <= i < c.len(),
    ensures
        lexeme_at(c, i) matches Ok(lexeme) ==> lexeme.start == i && i < lexeme.end <= c.len()
            && lexeme_at(in_parentheses(c), i + 1) == Ok::<Lexeme, LexError>(moved_lexeme(lexeme)),
{
    let d = in_parentheses(c);
    assert(d[i + 1] == c[i]);
    assert(char_at(d, i + 1) == char_at(c, i));
    assert(char_at(d, i + 2) == (if i + 1 < c.len() {
        char_at(c, i + 1)
    } else {
        ')'
    }));
    assert(char_at(d, i + 3) == (if i + 2 < c.len() {
        char_at(c, i + 2)
    } else if i + 2 == c.len() {
        ')'
    } else {
        '\0'
    }));
    name_end_in_parentheses(c, i + 1);
    quote_end_in_parentheses(c, i + 1);
}

/// The lexemes of a text between parentheses, from one behind the opening one on.
proof fn rest_in_parentheses(c: Seq<char>, i: int)
    requires
        0 <= i <= c.len(),
        !blank_runs_out(c, lexemes_end(lexing_from(c, i).lexemes, i)),
        lexing_from(c, i).failure is None,
    ensures
        ({
            let rest = lexing_from(c, i).lexemes;
            let close = Lexeme {
                kind: TokenKind::CloseParen,
                start: c.len() as int + 1,
                end: c.len() as int + 2,
            };
            &&& lexing_from(in_parentheses(c), i + 1).failure is None
            &&& lexing_from(in_parentheses(c), i + 1).lexemes == rest.map_values(
                |lexeme: Lexeme| moved_lexeme(lexeme),
            ).push(close)
            &&& forall|k: int| #![trigger rest[k]]
                0 <= k < rest.len() ==> 0 <= rest[k].start <= rest[k].end <= c.len()
        }),
    decreases c.len() - i,
{
    let d = in_parentheses(c);
    let close = Lexeme {
        kind: TokenKind::CloseParen,
        start: c.len() as int + 1,
        end: c.len() as int + 2,
    };
    if blank_runs_out(c, i) {
        nothing_behind_blanks_that_run_out(c, i);
    }
    blank_end_in_parentheses(c, i);
    let start = blank_end(c, i)->Ok_0;
    let rest = lexing_from(c, i).lexemes;
    if start >= c.len() {
        assert(d[c.len() as int + 1] == ')');
        assert(lexeme_at(d, c.len() as int + 1) == Ok::<Lexeme, LexError>(close));
        assert(blank_end(d, c.len() as int + 2) == Ok::<int, LexError>(c.len() as int + 2));
        assert(lexing_from(d, c.len() as int + 2).lexemes =~= seq![]);
        assert(lexing_from(d, i + 1).lexemes =~= seq![close]);
        assert(rest =~= seq![]);
        assert(rest.map_values(|lexeme: Lexeme| moved_lexeme(lexeme)).push(close) =~= seq![close]);
    } else {
        lexeme_in_parentheses(c, start);
        let lexeme = lexeme_at(c, start)->Ok_0;
        rest_in_parentheses(c, lexeme.end);
        let later = lexing_from(c, lexeme.end).lexemes;
        assert(rest =~= seq![lexeme] + later);
        assert(lexing_from(d, i + 1).lexemes =~= seq![moved_lexeme(lexeme)] + lexing_from(
            d,
            lexeme.end + 1,
        ).lexemes);
        assert(rest.map_values(|lexeme: Lexeme| moved_lexeme(lexeme)).push(close)
            =~= seq![moved_lexeme(lexeme)] + later.map_values(
            |lexeme: Lexeme| moved_lexeme(lexeme),
        ).push(close));
    }
}

proof fn lexing_in_parentheses(c: Seq<char>)
    requires
        !ends_in_line_comment(c),
    ensures
        lexing(c).failure is None ==> {
            let inner = lexing(c).lexemes;
            let all = lexing(in_parentheses(c)).lexemes;
            &&& lexing(in_parentheses(c)).failure is None
            &&& all.len() == inner.len() + 2
            &&& all[0] == (Lexeme { kind: TokenKind::OpenParen, start: 0, end: 1 })
            &&& all.last() == (Lexeme {
                kind: TokenKind::CloseParen,
                start: c.len() as int + 1,
                end: c.len() as int + 2,
            })
            &&& forall|k: int| #![trigger inner[k]]
                0 <= k < inner.len() ==> all[k + 1] == moved_lexeme(inner[k]) && 0 <= inner[k].start
                    <= inner[k].end <= c.len()
        },
{
    let d = in_parentheses(c);
    if lexing(c).failure is None {
        rest_in_parentheses(c, 0);
        assert(d[0] == '(');
        let open = Lexeme { kind: TokenKind::OpenParen, start: 0, end: 1 };
        assert(blank_end(d, 0) == Ok::<int, LexError>(0));
        assert(lexeme_at(d, 0) == Ok::<Lexeme, LexError>(open));
        assert(lexing(d).lexemes =~= seq![open] + lexing_from(d, 1).lexemes);
    }
}

proof fn bytes_in_parentheses(c: Seq<char>, count: int)
    requires
        0 <= count <= c.len(),
    ensures
        bytes_before(in_parentheses(c), count + 1) == bytes_before(c, count) + 1,
    decreases count,
{
    let d = in_parentheses(c);
    if count > 0 {
        bytes_in_parentheses(c, count - 1);
        assert(d[count] == c[count - 1]);
    } else {
        assert(d[0] == '(');
        assert(bytes_before(d, 0) == 0);
        assert(bytes_before(d, 1) == bytes_before(d, 0) + char_bytes(d[0]));
    }
}

proof fn states_beside(text: Seq<char>, limit: int)
    requires
        !ends_in_line_comment(text),
        bytes_before(text, text.len() as int) + 2 <= usize::MAX,
    ensures
        lexing(text).failure is None ==> {
            let outer = first_state(in_parentheses(text), limit);
            &&& beside(first_state(text, limit), Parsing { position: 1, ..outer })
            &&& outer.words.len() >= 2
            &&& outer.words[0].kind == TokenKind::OpenParen
            &&& outer.words[0].text == "("@
        },
{
    if lexing(text).failure is None {
        lexing_in_parentheses(text);
        reveal_strlit("(");
        reveal_strlit(")");
        let d = in_parentheses(text);
        let inner = lexing(text).lexemes;
        let all = lexing(d).lexemes;
        let p1 = first_state(text, limit);
        let outer = first_state(d, limit);
        assert(moved_nodes(p1.nodes) =~= outer.nodes);
        assert forall|k: int| #![trigger outer.words[k + 1]]
            0 <= k < p1.words.len() implies outer.words[k + 1] == moved_word(p1.words[k]) by {
            let lexeme = inner[k];
            assert(all[k + 1] == moved_lexeme(lexeme));
            assert(d.subrange(lexeme.start + 1, lexeme.end + 1) =~= text.subrange(
                lexeme.start,
                lexeme.end,
            ));
            bytes_in_parentheses(text, lexeme.start);
            bytes_in_parentheses(text, lexeme.end);
            bytes_grow(text, lexeme.start, text.len() as int);
            bytes_grow(text, lexeme.end, text.len() as int);
        }
        assert(d.subrange(0, 1) =~= "("@);
        assert(d.subrange(text.len() as int + 1, text.len() as int + 2) =~= ")"@);
        assert(outer.words.last() == word_of(all.last(), d));
        assert(outer.words[0] == word_of(all[0], d));
    }
}

/// A text that cannot be read to its end has no tree.
proof fn failed_texts_have_no_tree(p: Parsing, depth: int)
    requires
        p.failure is Some,
        0 <= p.position,
    ensures
        parsed_tree(p, depth) is Err,
{
    parsed_root_limited(p, 0, depth);
}

proof fn first_word_is_no_closing(text: Seq<char>, limit: int, depth: int)
    requires
        lexing(text).failure is None,
        !begins_with_return(text),
        tree_on_level(text, limit, depth) is Ok,
    ensures
        first_state(text, limit).words.len() > 0,
        first_state(text, limit).words[0].kind != TokenKind::CloseParen,
{
    reveal_strlit("return");
    let p = first_state(text, limit);
    let q = peek(p)->Ok_0;
    nothing_left_is_no_expression(q, depth);
    if p.words.len() > 0 && p.words[0].kind == TokenKind::CloseParen {
        let lexeme = lexing(text).lexemes[0];
        let word = p.words[0];
        first_lexeme(text);
        reveal_strlit(")");
        assert(text.subrange(lexeme.start, lexeme.end) =~= ")"@);
        assert(word.text == ")"@);
        closing_is_no_operator();
        reveal_strlit("break");
        reveal_strlit("if");
        reveal_strlit("match");
        reveal_strlit("loop");
        reveal_strlit("const");
        assert("break"@.len() == 5 && "if"@.len() == 2 && "match"@.len() == 5 && "loop"@.len() == 4
            && "const"@.len() == 5 && ")"@.len() == 1);
        assert(front(q) == Some(word));
        parsed_expression_rule(q, 0, depth);
        parsed_cast_rule(q, depth + 1);
        parsed_unary_rule(q, depth + 2);
        parsed_postfix_rule(q, depth + 3);
        parsed_atom_rule(q, depth + 3);
        let r = take(q)->Ok_0.0;
        parsed_atom_from_rule(r, word, depth + 3);
        parsed_plain_atom_rule(r, word, depth + 3);
    }
}

proof fn first_lexeme(c: Seq<char>)
    requires
        lexing(c).lexemes.len() > 0,
        lexing(c).lexemes[0].kind == TokenKind::CloseParen,
    ensures
        ({
            let lexeme = lexing(c).lexemes[0];
            &&& 0 <= lexeme.start < c.len()
            &&& lexeme.end == lexeme.start + 1
            &&& c[lexeme.start] == ')'
        }),
{
    let start = blank_end(c, 0)->Ok_0;
    let lexeme = lexeme_at(c, start)->Ok_0;
    assert(lexing(c).lexemes[0] == lexeme);
}

/// An opening parenthesis is no operator and no keyword.
proof fn opening_is_no_operator()
    ensures
        prefix_operator("("@) is None,
{
    reveal_strlit("(");
    reveal_strlit("-");
    reveal_strlit("!");
    reveal_strlit("*");
    reveal_strlit("&");
    assert("("@[0] != "-"@[0] && "("@[0] != "!"@[0] && "("@[0] != "*"@[0] && "("@[0] != "&"@[0]);
}

/// Reading a text between parentheses, behind its first word.
proof fn parenthesized_text(
    text: Seq<char>,
    limit: int,
    q1: Parsing,
    outer: Parsing,
    depth: int,
    outside: int,
)
    requires
        beside(first_state(text, limit), Parsing { position: 1, ..outer }),
        outer == first_state(in_parentheses(text), limit),
        outer.words[0].kind == TokenKind::OpenParen,
        outer.words[0].text == "("@,
        first_state(text, limit).words.len() > 0,
        first_state(text, limit).words[0].kind != TokenKind::CloseParen,
        peek(first_state(text, limit)) == Ok::<Parsing, ExpressionError>(q1),
        next_reads(first_state(text, limit), "return"@) == Ok::<(Parsing, bool), ExpressionError>(
            (q1, false),
        ),
        tree_on_level(text, limit, depth) is Ok,
        outside + 3 < MAX_EXPRESSION_DEPTH,
    ensures
        match tree_on_level(in_parentheses(text), limit, outside) {
            Ok(moved) => moved == moved_tree(tree_on_level(text, limit, depth)->Ok_0),
            Err(error) => too_deep(error) && depth != outside + 4,
        },
{
    let p1 = first_state(text, limit);
    let p2 = Parsing { position: 1, ..outer };
    let open = outer.words[0];
    reveal_strlit("return");
    reveal_strlit("(");
    reveal_strlit("as");
    reveal_strlit("break");
    reveal_strlit("if");
    reveal_strlit("match");
    reveal_strlit("loop");
    reveal_strlit("const");
    assert("break"@.len() == 5 && "if"@.len() == 2 && "match"@.len() == 5 && "loop"@.len() == 4
        && "const"@.len() == 5 && "("@.len() == 1 && "return"@.len() == 6);
    opening_is_no_operator();
    let o1 = peek(outer)->Ok_0;
    assert(front(o1) == Some(open));
    assert(next_reads(outer, "return"@) == Ok::<(Parsing, bool), ExpressionError>((o1, false)));
    assert(take(o1) == Ok::<(Parsing, Option<Word>), ExpressionError>((p2, Some(open))));
    parsed_expression_rule(o1, 0, outside);
    parsed_cast_rule(o1, outside + 1);
    parsed_unary_rule(o1, outside + 2);
    parsed_postfix_rule(o1, outside + 3);
    parsed_atom_rule(o1, outside + 3);
    parsed_atom_from_rule(p2, open, outside + 3);
    parsed_plain_atom_rule(p2, open, outside + 3);
    parsed_parentheses_rule(p2, open, outside + 3);
    peek_beside(p1, p2);
    let r2 = peek(p2)->Ok_0;
    assert(next_is(p2, TokenKind::CloseParen) == Ok::<(Parsing, bool), ExpressionError>(
        (r2, false),
    ));
    parsed_expression_beside(q1, r2, 0, depth, outside + 4);
    if let Ok((e1, id)) = parsed_expression(q1, 0, depth) {
        if let Ok((e2, _)) = parsed_expression(r2, 0, outside + 4) {
            take_beside(e1, e2);
            let z = take(e2)->Ok_0.0;
            parsed_suffixes_rule(z, id, outside + 3);
            parsed_operators_rule(z, id, 0, outside);
            assert(peek(z) == Ok::<Parsing, ExpressionError>(z));
            assert(front(z) is None);
            assert(parsed_casts(z, id) == Ok::<(Parsing, ExprId), ExpressionError>((z, id)));
        }
    }
}

} // verus!
