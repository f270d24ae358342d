//! How many nodes a tree may have does not change the tree.
use crate::expression::{
    ExprId, ExpressionError, ExpressionErrorKind, Form, MAX_ARRAY_ELEMENTS,
    MAX_CALL_ARGUMENTS, MAX_EXPRESSION_DEPTH, Node, RangeValidation, Tree, level_refused,
    node_at, room,
};
use crate::grammar::{
    Arm, Binding, InnerExits, MAX_INLINE_CONST_ASSIGNMENTS, MAX_INLINE_CONST_BINDINGS,
    MAX_INLINE_CONST_EXPRESSION_STATEMENTS, MAX_LOOP_BREAK_BRANCHES, MAX_MATCH_ALTERNATIVES,
    MAX_MATCH_PATTERNS, Parsed, Parsing, Pattern, PatternBody, ValueLoopControlTarget, Word,
    advances, alternatives_condition, annotated, arm_binding, arm_bound, arms_cover,
    assigned_form, assignment_operator, binding_place, body_condition, closed_array,
    closed_call, closed_index_range, closed_loop, deciding_body, decision,
    expect_break_target, expect_kind, expect_operator, expect_text, expression_tree,
    first_state, form_of, front, grouped_binding, guarded_condition, is_kind, is_operator,
    is_text, loop_exits, loop_start, method_form, name_form, next_is, next_operator,
    next_reads, noted_range, operator_named, padded, parsed_alternatives,
    parsed_alternatives_list, parsed_annotation, parsed_arguments, parsed_arm,
    parsed_arm_end, parsed_arm_start, parsed_arms, parsed_array, parsed_assignment,
    parsed_atom, parsed_atom_from, parsed_binding, parsed_block, parsed_bound_expression,
    parsed_bound_statement, parsed_braced_break, parsed_branch_operand, parsed_break,
    parsed_break_operand, parsed_break_target, parsed_cast, parsed_casts,
    parsed_condition_operand, parsed_const, parsed_default, parsed_elements, parsed_else,
    parsed_exit, parsed_expression, parsed_fallback, parsed_group, parsed_guard, parsed_if,
    parsed_index, parsed_index_range, parsed_inner_branches, parsed_labelled,
    parsed_last_exit, parsed_loop, parsed_loop_branches, parsed_match, parsed_method,
    parsed_mut, parsed_mutability, parsed_name, parsed_nested_break_operand,
    parsed_nested_loop, parsed_operators, parsed_outer_exit, parsed_parentheses,
    parsed_pattern, parsed_pattern_bound, parsed_plain_atom, parsed_plain_name,
    parsed_postfix, parsed_range_pattern, parsed_repeat, parsed_root,
    parsed_simple_alternatives, parsed_statements, parsed_suffixes, parsed_unary,
    parsed_while, peek, prefix_operator, push_across, push_character, push_comparison,
    push_from, push_integer, push_node, push_to, push_unit_at, range_pattern, remaining,
    sequenced, skipped_body, span_of, substituted, substituted_all, take, unit_form,
    upper_operator, with_bindings,
};
use crate::rules::{
    parsed_arguments_rule, parsed_arm_rule, parsed_arms_rule, parsed_array_rule,
    parsed_assignment_rule, parsed_atom_from_rule, parsed_atom_rule, parsed_binding_rule,
    parsed_block_rule, parsed_bound_expression_rule, parsed_bound_statement_rule,
    parsed_braced_break_rule, parsed_branch_operand_rule, parsed_break_operand_rule,
    parsed_break_rule, parsed_cast_rule, parsed_condition_operand_rule, parsed_const_rule,
    parsed_elements_rule, parsed_else_rule, parsed_exit_rule, parsed_expression_rule,
    parsed_fallback_rule, parsed_guard_rule, parsed_if_rule, parsed_index_range_rule,
    parsed_index_rule, parsed_inner_branches_rule, parsed_labelled_rule,
    parsed_last_exit_rule, parsed_loop_branches_rule, parsed_loop_rule, parsed_match_rule,
    parsed_method_rule, parsed_name_rule, parsed_nested_break_operand_rule,
    parsed_nested_loop_rule, parsed_operators_rule, parsed_outer_exit_rule,
    parsed_parentheses_rule, parsed_plain_atom_rule, parsed_plain_name_rule,
    parsed_postfix_rule, parsed_statements_rule, parsed_suffixes_rule, parsed_unary_rule,
    parsed_while_rule,
};
use crate::integer::{
    BinaryOperator, ScalarType, UnaryOperator, integer_type_named,
};
use crate::literal::{
    character_literal, integer_literal,
};
use crate::token::{
    Span, TokenKind,
};
use vstd::prelude::*;

verus! {

/// The same state with another limit for nodes.
pub open spec fn with_limit(p: Parsing, limit: int) -> Parsing {
    Parsing { limit, ..p }
}

/// Whether there are too many nodes.
pub open spec fn too_many<T>(result: Result<T, ExpressionError>) -> bool {
    result matches Err(error) && error.kind == ExpressionErrorKind::TooManyNodes
}

/// Whether reading keeps the words and the limit and goes forward, and whether with another limit it
/// reads the same where that leaves room for it, and is refused where that does not.
pub open spec fn limited<T>(p: Parsing, read: Parsed<T>, other: int, again: Parsed<T>) -> bool {
    match read {
        Err(_) => true,
        Ok((q, value)) => {
            &&& q.limit == p.limit
            &&& q.words == p.words
            &&& q.failure == p.failure
            &&& p.position <= q.position
            &&& p.nodes.len() <= q.nodes.len()
            &&& p.nodes.len() <= p.limit ==> q.nodes.len() <= q.limit
            &&& q.nodes.len() <= other ==> again == Ok::<(Parsing, T), ExpressionError>(
                (with_limit(q, other), value),
            )
            &&& p.nodes.len() <= other < q.nodes.len() ==> too_many(again)
        },
    }
}

/// The same where nothing but a state is reached.
pub open spec fn limited_state(
    p: Parsing,
    reached: Result<Parsing, ExpressionError>,
    other: int,
    again: Result<Parsing, ExpressionError>,
) -> bool {
    match reached {
        Err(_) => true,
        Ok(q) => {
            &&& q.limit == p.limit
            &&& q.words == p.words
            &&& q.failure == p.failure
            &&& p.position <= q.position
            &&& p.nodes.len() <= q.nodes.len()
            &&& p.nodes.len() <= p.limit ==> q.nodes.len() <= q.limit
            &&& q.nodes.len() <= other ==> again == Ok::<Parsing, ExpressionError>(
                with_limit(q, other),
            )
            &&& p.nodes.len() <= other < q.nodes.len() ==> too_many(again)
        },
    }
}

/// The limit for nodes never changes a tree: where it leaves room for the tree, the tree is read,
/// and where it does not, there are too many nodes.
pub proof fn node_limit_never_changes_the_tree(
    text: Seq<char>,
    limit: int,
    other: int,
    tree: Tree,
)
    requires
        0 <= other,
        expression_tree(text, limit) == Ok::<Tree, ExpressionError>(tree),
    ensures
        tree.nodes.len() <= other ==> expression_tree(text, other) == Ok::<Tree, ExpressionError>(
            tree,
        ),
        tree.nodes.len() > other ==> too_many(expression_tree(text, other)),
{
    let p = first_state(text, limit);
    parsed_root_limited(p, other, 0);
    if let Ok((q, _)) = parsed_root(p, 0) {
        take_limited(q, other);
    }
    assert(with_limit(p, other) == first_state(text, other));
}

pub(crate) proof fn peek_limited(
    p: Parsing,
    other: int,
)
    ensures
        limited_state(
            p,
            peek(p),
            other,
            peek(with_limit(p, other)),
        ),
{
}

pub(crate) proof fn take_limited(
    p: Parsing,
    other: int,
)
    ensures
        limited(
            p,
            take(p),
            other,
            take(with_limit(p, other)),
        ),
{
}

pub(crate) proof fn next_is_limited(
    p: Parsing,
    other: int,
    kind: TokenKind,
)
    ensures
        limited(
            p,
            next_is(p, kind),
            other,
            next_is(with_limit(p, other), kind),
        ),
{
    peek_limited(p, other);
}

pub(crate) proof fn next_reads_limited(
    p: Parsing,
    other: int,
    text: Seq<char>,
)
    ensures
        limited(
            p,
            next_reads(p, text),
            other,
            next_reads(with_limit(p, other), text),
        ),
{
    peek_limited(p, other);
}

pub(crate) proof fn next_operator_limited(
    p: Parsing,
    other: int,
    text: Seq<char>,
)
    ensures
        limited(
            p,
            next_operator(p, text),
            other,
            next_operator(with_limit(p, other), text),
        ),
{
    peek_limited(p, other);
}

pub(crate) proof fn expect_kind_limited(
    p: Parsing,
    other: int,
    kind: TokenKind,
    error: ExpressionErrorKind,
)
    ensures
        limited(
            p,
            expect_kind(p, kind, error),
            other,
            expect_kind(with_limit(p, other), kind, error),
        ),
{
    take_limited(p, other);
}

pub(crate) proof fn expect_text_limited(
    p: Parsing,
    other: int,
    text: Seq<char>,
    error: ExpressionErrorKind,
)
    ensures
        limited(
            p,
            expect_text(p, text, error),
            other,
            expect_text(with_limit(p, other), text, error),
        ),
{
    take_limited(p, other);
}

pub(crate) proof fn expect_operator_limited(
    p: Parsing,
    other: int,
    text: Seq<char>,
    error: ExpressionErrorKind,
)
    ensures
        limited(
            p,
            expect_operator(p, text, error),
            other,
            expect_operator(with_limit(p, other), text, error),
        ),
{
    take_limited(p, other);
}

pub(crate) proof fn push_node_limited(
    p: Parsing,
    other: int,
    form: Form,
    span: Span,
)
    ensures
        limited(
            p,
            push_node(p, form, span),
            other,
            push_node(with_limit(p, other), form, span),
        ),
{
}

pub(crate) proof fn push_across_limited(
    p: Parsing,
    other: int,
    form: Form,
    first: ExprId,
    last: ExprId,
)
    ensures
        limited(
            p,
            push_across(p, form, first, last),
            other,
            push_across(with_limit(p, other), form, first, last),
        ),
{
    match span_of(p, first) {
        Err(error) => {},
        Ok(start) => {
            match span_of(p, last) {
                Err(error) => {},
                Ok(end) => {
                    push_node_limited(p, other, form, Span { start: start.start, end: end.end });
                },
            }
        },
    }
}

pub(crate) proof fn push_from_limited(
    p: Parsing,
    other: int,
    form: Form,
    start: usize,
    last: ExprId,
)
    ensures
        limited(
            p,
            push_from(p, form, start, last),
            other,
            push_from(with_limit(p, other), form, start, last),
        ),
{
    match span_of(p, last) {
        Err(error) => {},
        Ok(end) => {
            push_node_limited(p, other, form, Span { start, end: end.end });
        },
    }
}

proof fn substituted_keeps_length(
    length: usize,
    nodes: Seq<Option<Node>>,
    id: ExprId,
    name: Seq<char>,
    form: Form,
    depth: int,
)
    ensures
        substituted(length, nodes, id, name, form, depth) matches Ok(after)
            ==> after.len() == nodes.len(),
    decreases room(depth), 0int,
{
    match node_at(nodes, id) {
        None => {},
        Some(node) => {
            if level_refused(depth) {
            } else {
                match node.form {
                    Form::Identifier(identifier) => {},
                    Form::Call { arguments, argument_count, .. } => {
                        if argument_count
                    > MAX_CALL_ARGUMENTS {
                        } else {
                            substituted_all_keeps_length(
                                length,
                                nodes,
                                arguments,
                                argument_count as int,
                                name,
                                form,
                                depth + 1,
                            );
                        }
                    },
                    Form::Array { elements, element_count } => {
                        if element_count > MAX_ARRAY_ELEMENTS {
                        } else {
                            substituted_all_keeps_length(
                                length,
                                nodes,
                                elements,
                                element_count as int,
                                name,
                                form,
                                depth + 1,
                            );
                        }
                    },
                    Form::Cast { operand, .. } => {
                        substituted_keeps_length(length, nodes, operand, name, form, depth + 1);
                    },
                    Form::Ascribe { operand, .. } => {
                        substituted_keeps_length(length, nodes, operand, name, form, depth + 1);
                    },
                    Form::Unary { operand, .. } => {
                        substituted_keeps_length(length, nodes, operand, name, form, depth + 1);
                    },
                    Form::Return { operand } => {
                        substituted_keeps_length(length, nodes, operand, name, form, depth + 1);
                    },
                    Form::LoopBreak { operand } => {
                        substituted_keeps_length(length, nodes, operand, name, form, depth + 1);
                    },
                    Form::ArrayRepeat { element, .. } => {
                        substituted_keeps_length(length, nodes, element, name, form, depth + 1);
                    },
                    Form::SliceLen { base } => {
                        substituted_keeps_length(length, nodes, base, name, form, depth + 1);
                    },
                    Form::SliceIsEmpty { base } => {
                        substituted_keeps_length(length, nodes, base, name, form, depth + 1);
                    },
                    Form::StrAsBytes { base } => {
                        substituted_keeps_length(length, nodes, base, name, form, depth + 1);
                    },
                    Form::ReferenceAsPointer { base, .. } => {
                        substituted_keeps_length(length, nodes, base, name, form, depth + 1);
                    },
                    Form::Binary { left, right, .. } => {
                        substituted_all_keeps_length(
                            length,
                            nodes,
                            seq![Some(left), Some(right)],
                            2,
                            name,
                            form,
                            depth + 1,
                        );
                    },
                    Form::Sequence { first, then } => {
                        substituted_all_keeps_length(
                            length,
                            nodes,
                            seq![Some(first), Some(then)],
                            2,
                            name,
                            form,
                            depth + 1,
                        );
                    },
                    Form::Index { base, index } => {
                        substituted_all_keeps_length(
                            length,
                            nodes,
                            seq![Some(base), Some(index)],
                            2,
                            name,
                            form,
                            depth + 1,
                        );
                    },
                    Form::StrIsCharBoundary { base, index } => {
                        substituted_all_keeps_length(
                            length,
                            nodes,
                            seq![Some(base), Some(index)],
                            2,
                            name,
                            form,
                            depth + 1,
                        );
                    },
                    Form::RangeIndex { base, start, end, .. } => {
                        substituted_all_keeps_length(
                            length,
                            nodes,
                            seq![Some(base), start, end],
                            3,
                            name,
                            form,
                            depth + 1,
                        );
                    },
                    Form::If { condition, then_branch, else_branch } => {
                        substituted_all_keeps_length(
                            length,
                            nodes,
                            seq![Some(condition), Some(then_branch), Some(else_branch)],
                            3,
                            name,
                            form,
                            depth + 1,
                        );
                    },
                    Form::LoopBreakIf { condition, then_branch, else_branch } => {
                        substituted_all_keeps_length(
                            length,
                            nodes,
                            seq![Some(condition), Some(then_branch), Some(else_branch)],
                            3,
                            name,
                            form,
                            depth + 1,
                        );
                    },
                    _ => {},
                }
            }
        },
    }
}

proof fn substituted_all_keeps_length(
    length: usize,
    nodes: Seq<Option<Node>>,
    ids: Seq<Option<ExprId>>,
    count: int,
    name: Seq<char>,
    form: Form,
    depth: int,
)
    ensures
        substituted_all(length, nodes, ids, count, name, form, depth) matches Ok(after)
            ==> after.len() == nodes.len(),
    decreases room(depth), count,
{
    if count <= 0 {
    } else {
        substituted_all_keeps_length(length, nodes, ids, count - 1, name, form, depth);
        match substituted_all(length, nodes, ids, count - 1, name, form, depth) {
            Err(error) => {},
            Ok(nodes) => {
                match ids[count - 1] {
                    None => {},
                    Some(id) => {
                        substituted_keeps_length(length, nodes, id, name, form, depth);
                    },
                }
            },
        }
    }
}

pub(crate) proof fn with_bindings_limited(
    p: Parsing,
    other: int,
    id: ExprId,
    bindings: Seq<Binding>,
    count: int,
    depth: int,
)
    ensures
        limited_state(
            p,
            with_bindings(p, id, bindings, count, depth),
            other,
            with_bindings(with_limit(p, other), id, bindings, count, depth),
        ),
    decreases count,
{
    reveal(with_bindings);
    if count <= 0 {
    } else {
        let binding = bindings[count - 1];
        substituted_keeps_length(p.length, p.nodes, id, binding.name, binding.form, depth);
        match substituted(p.length, p.nodes, id, binding.name, binding.form, depth) {
            Err(error) => {},
            Ok(nodes) => {
                with_bindings_limited(
                    Parsing { nodes, ..p },
                    other,
                    id,
                    bindings,
                    count - 1,
                    depth,
                );
            },
        }
    }
}

pub(crate) proof fn annotated_limited(
    p: Parsing,
    other: int,
    form: Form,
    annotation: Option<ScalarType>,
    name: Word,
    value: ExprId,
)
    ensures
        limited(
            p,
            annotated(p, form, annotation, name, value),
            other,
            annotated(with_limit(p, other), form, annotation, name, value),
        ),
{
    reveal(annotated);
    match annotation {
        None => {},
        Some(target) => {
            match span_of(p, value) {
                Err(error) => {},
                Ok(span) => {
                    push_node_limited(p, other, form, span);
                    match push_node(p, form, span) {
                        Err(error) => {},
                        Ok((q, operand)) => {
                            let ascription = Form::Ascribe { operand, target };
                            push_from_limited(q, other, ascription, name.span.start, value);
                        },
                    }
                },
            }
        },
    }
}

pub(crate) proof fn parsed_annotation_limited(
    p: Parsing,
    other: int,
)
    ensures
        limited(
            p,
            parsed_annotation(p),
            other,
            parsed_annotation(with_limit(p, other)),
        ),
{
    reveal(parsed_annotation);
    next_is_limited(p, other, TokenKind::Colon);
    match next_is(p, TokenKind::Colon) {
        Err(error) => {},
        Ok((p, false)) => {},
        Ok((p, true)) => {
            take_limited(p, other);
            match take(p) {
                Err(error) => {},
                Ok((p, _)) => {
                    expect_kind_limited(
                        p,
                        other,
                        TokenKind::Identifier,
                        ExpressionErrorKind::ExpectedInlineConstType,
                    );
                },
            }
        },
    }
}

pub(crate) proof fn push_integer_limited(
    p: Parsing,
    other: int,
    word: Word,
)
    ensures
        limited(
            p,
            push_integer(p, word),
            other,
            push_integer(with_limit(p, other), word),
        ),
{
    match integer_literal(word.text) {
        Err(kind) => {},
        Ok((value, suffix)) => {
            push_node_limited(p, other, Form::Integer { value, suffix }, word.span);
        },
    }
}

pub(crate) proof fn push_character_limited(
    p: Parsing,
    other: int,
    word: Word,
)
    ensures
        limited(
            p,
            push_character(p, word),
            other,
            push_character(with_limit(p, other), word),
        ),
{
    match character_literal(word.text) {
        None => {},
        Some(value) => {
            push_node_limited(p, other, Form::Char(value), word.span);
        },
    }
}

pub(crate) proof fn parsed_pattern_bound_limited(
    p: Parsing,
    other: int,
    depth: int,
)
    ensures
        limited(
            p,
            parsed_pattern_bound(p, depth),
            other,
            parsed_pattern_bound(with_limit(p, other), depth),
        ),
{
    if level_refused(depth) {
    } else {
        take_limited(p, other);
        match take(p) {
            Err(error) => {},
            Ok((q, None)) => {},
            Ok((q, Some(word))) => {
                if word.kind == TokenKind::Integer {
                    push_integer_limited(q, other, word);
                } else {
                    if word.kind == TokenKind::Character {
                        push_character_limited(q, other, word);
                    } else {
                        if word.text == "true"@ || word.text == "false"@ {
                            push_node_limited(
                                q,
                                other,
                                Form::Bool(word.text == "true"@),
                                word.span,
                            );
                        } else {
                            if word.kind == TokenKind::Identifier && word.text != "_"@ && word.text
                != "mut"@ {
                                push_node_limited(
                                    q,
                                    other,
                                    Form::Identifier(word.text),
                                    word.span,
                                );
                            } else {
                                if word.kind == TokenKind::Operator && word.text == "-"@ {
                                    expect_kind_limited(
                                        q,
                                        other,
                                        TokenKind::Integer,
                                        ExpressionErrorKind::ExpectedMatchPattern,
                                    );
                                    match expect_kind(
                    q,
                    TokenKind::Integer,
                    ExpressionErrorKind::ExpectedMatchPattern,
                ) {
                                        Err(error) => {},
                                        Ok((q, literal)) => {
                                            push_integer_limited(q, other, literal);
                                            match push_integer(q, literal) {
                                                Err(error) => {},
                                                Ok((q, operand)) => {
                                                    push_node_limited(
                                                        q,
                                                        other,
                                                        Form::Unary { operator: UnaryOperator::Negate, operand },
                                                        Span { start: word.span.start, end: literal.span.end },
                                                    );
                                                },
                                            }
                                        },
                                    }
                                }
                            }
                        }
                    }
                }
            },
        }
    }
}

pub(crate) proof fn range_pattern_limited(
    p: Parsing,
    other: int,
    start: Option<ExprId>,
    end: Option<ExprId>,
    inclusive: bool,
)
    ensures
        limited(
            p,
            range_pattern(p, start, end, inclusive),
            other,
            range_pattern(with_limit(p, other), start, end, inclusive),
        ),
{
}

pub(crate) proof fn parsed_range_pattern_limited(
    p: Parsing,
    other: int,
    start: Option<ExprId>,
    depth: int,
)
    ensures
        limited(
            p,
            parsed_range_pattern(p, start, depth),
            other,
            parsed_range_pattern(with_limit(p, other), start, depth),
        ),
{
    take_limited(p, other);
    match take(p) {
        Err(error) => {},
        Ok((p, _)) => {
            expect_kind_limited(
                p,
                other,
                TokenKind::Dot,
                ExpressionErrorKind::ExpectedMatchPattern,
            );
            match expect_kind(
            p,
            TokenKind::Dot,
            ExpressionErrorKind::ExpectedMatchPattern,
        ) {
                Err(error) => {},
                Ok((p, _)) => {
                    next_operator_limited(p, other, "="@);
                    match next_operator(p, "="@) {
                        Err(error) => {},
                        Ok((p, true)) => {
                            take_limited(p, other);
                            match take(p) {
                                Err(error) => {},
                                Ok((p, _)) => {
                                    parsed_pattern_bound_limited(p, other, depth + 1);
                                    match parsed_pattern_bound(p, depth + 1) {
                                        Err(error) => {},
                                        Ok((p, end)) => {
                                            range_pattern_limited(
                                                p,
                                                other,
                                                start,
                                                Some(end),
                                                true,
                                            );
                                        },
                                    }
                                },
                            }
                        },
                        Ok((p, false)) => {
                            peek_limited(p, other);
                            match peek(p) {
                                Err(error) => {},
                                Ok(p) => {
                                    if is_kind(front(p), TokenKind::FatArrow) || is_operator(
                        front(p),
                        "|"@,
                    ) {
                                        range_pattern_limited(p, other, start, None, false);
                                    } else {
                                        parsed_pattern_bound_limited(p, other, depth + 1);
                                        match parsed_pattern_bound(p, depth + 1) {
                                            Err(error) => {},
                                            Ok((p, end)) => {
                                                range_pattern_limited(
                                                    p,
                                                    other,
                                                    start,
                                                    Some(end),
                                                    false,
                                                );
                                            },
                                        }
                                    }
                                },
                            }
                        },
                    }
                },
            }
        },
    }
}

pub(crate) proof fn parsed_pattern_limited(
    p: Parsing,
    other: int,
    depth: int,
)
    ensures
        limited(
            p,
            parsed_pattern(p, depth),
            other,
            parsed_pattern(with_limit(p, other), depth),
        ),
    decreases room(depth),
{
    peek_limited(p, other);
    match peek(p) {
        Err(error) => {},
        Ok(p) => {
            if is_kind(front(p), TokenKind::Identifier) && is_text(front(p), "_"@) {
                take_limited(p, other);
            } else {
                if is_kind(front(p), TokenKind::Dot) {
                    parsed_range_pattern_limited(p, other, None, depth);
                } else {
                    parsed_pattern_bound_limited(p, other, depth + 1);
                    match parsed_pattern_bound(p, depth + 1) {
                        Err(error) => {},
                        Ok((p, start)) => {
                            next_operator_limited(p, other, "@"@);
                            match next_operator(p, "@"@) {
                                Err(error) => {},
                                Ok((p, true)) => {
                                    match name_form(p.nodes, start) {
                                        None => {},
                                        Some(name) => {
                                            take_limited(p, other);
                                            match take(p) {
                                                Err(error) => {},
                                                Ok((p, _)) => {
                                                    parsed_pattern_limited(p, other, depth + 1);
                                                },
                                            }
                                        },
                                    }
                                },
                                Ok((p, false)) => {
                                    if is_kind(front(p), TokenKind::Dot) {
                                        parsed_range_pattern_limited(p, other, Some(start), depth);
                                    }
                                },
                            }
                        },
                    }
                }
            }
        },
    }
}

pub(crate) proof fn grouped_binding_limited(
    p: Parsing,
    other: int,
)
    ensures
        limited(
            p,
            grouped_binding(p),
            other,
            grouped_binding(with_limit(p, other)),
        ),
{
    take_limited(p, other);
    match take(p) {
        Err(error) => {},
        Ok((q, candidate)) => {
            take_limited(q, other);
            match take(q) {
                Err(error) => {},
                Ok((q, at)) => {
                    if is_kind(candidate, TokenKind::Identifier) && !is_text(
                candidate,
                "_"@,
            ) && is_operator(at, "@"@) {
                        peek_limited(q, other);
                    }
                },
            }
        },
    }
}

pub(crate) proof fn parsed_alternatives_limited(
    p: Parsing,
    other: int,
    found: Seq<Pattern>,
    binding: Option<Seq<char>>,
    depth: int,
)
    ensures
        limited(
            p,
            parsed_alternatives(p, found, binding, depth),
            other,
            parsed_alternatives(with_limit(p, other), found, binding, depth),
        ),
    decreases room(depth), 2int, 0int,
{
    if level_refused(depth) {
    } else {
        if binding is None {
            grouped_binding_limited(p, other);
            match grouped_binding(p) {
                Err(error) => {},
                Ok((q, Some(name))) => {
                    parsed_alternatives_limited(q, other, found, Some(name), depth + 1);
                },
                Ok((q, None)) => {
                    parsed_simple_alternatives_limited(q, other, found, binding, depth);
                },
            }
        } else {
            parsed_simple_alternatives_limited(p, other, found, binding, depth);
        }
    }
}

pub(crate) proof fn parsed_simple_alternatives_limited(
    p: Parsing,
    other: int,
    found: Seq<Pattern>,
    binding: Option<Seq<char>>,
    depth: int,
)
    ensures
        limited(
            p,
            parsed_simple_alternatives(p, found, binding, depth),
            other,
            parsed_simple_alternatives(with_limit(p, other), found, binding, depth),
        ),
    decreases room(depth), 1int, 0int,
{
    next_is_limited(p, other, TokenKind::OpenParen);
    match next_is(p, TokenKind::OpenParen) {
        Err(error) => {},
        Ok((p, true)) => {
            take_limited(p, other);
            match take(p) {
                Err(error) => {},
                Ok((p, _)) => {
                    next_operator_limited(p, other, "|"@);
                    match next_operator(p, "|"@) {
                        Err(error) => {},
                        Ok((p, true)) => {
                            take_limited(p, other);
                            match take(p) {
                                Err(error) => {},
                                Ok((p, _)) => {
                                    parsed_group_limited(p, other, found, binding, depth);
                                },
                            }
                        },
                        Ok((p, false)) => {
                            parsed_group_limited(p, other, found, binding, depth);
                        },
                    }
                },
            }
        },
        Ok((p, false)) => {
            if found.len() >= MAX_MATCH_ALTERNATIVES {
            } else {
                parsed_pattern_limited(p, other, depth + 1);
            }
        },
    }
}

pub(crate) proof fn parsed_group_limited(
    p: Parsing,
    other: int,
    found: Seq<Pattern>,
    binding: Option<Seq<char>>,
    depth: int,
)
    ensures
        limited(
            p,
            parsed_group(p, found, binding, depth),
            other,
            parsed_group(with_limit(p, other), found, binding, depth),
        ),
    decreases room(depth), 0int, remaining(p),
{
    if level_refused(depth) {
    } else {
        next_is_limited(p, other, TokenKind::CloseParen);
        match next_is(p, TokenKind::CloseParen) {
            Err(error) => {},
            Ok((q, true)) => {},
            Ok((q, false)) => {
                parsed_alternatives_limited(q, other, found, binding, depth + 1);
                match parsed_alternatives(q, found, binding, depth + 1) {
                    Err(error) => {},
                    Ok((q, found)) => {
                        next_operator_limited(q, other, "|"@);
                        match next_operator(q, "|"@) {
                            Err(error) => {},
                            Ok((q, true)) => {
                                take_limited(q, other);
                                match take(q) {
                                    Err(error) => {},
                                    Ok((q, _)) => {
                                        if advances(p, q) {
                                            parsed_group_limited(q, other, found, binding, depth);
                                        }
                                    },
                                }
                            },
                            Ok((q, false)) => {
                                expect_kind_limited(
                                    q,
                                    other,
                                    TokenKind::CloseParen,
                                    ExpressionErrorKind::ExpectedCloseParen,
                                );
                            },
                        }
                    },
                }
            },
        }
    }
}

pub(crate) proof fn push_comparison_limited(
    p: Parsing,
    other: int,
    operator: BinaryOperator,
    scrutinee: ExprId,
    bound: ExprId,
)
    ensures
        limited(
            p,
            push_comparison(p, operator, scrutinee, bound),
            other,
            push_comparison(with_limit(p, other), operator, scrutinee, bound),
        ),
{
    push_across_limited(
        p,
        other,
        Form::Binary { operator, left: scrutinee, right: bound },
        scrutinee,
        bound,
    );
}

pub(crate) proof fn noted_range_limited(
    p: Parsing,
    other: int,
    range: RangeValidation,
)
    ensures
        limited_state(
            p,
            noted_range(p, range),
            other,
            noted_range(with_limit(p, other), range),
        ),
{
}

pub(crate) proof fn body_condition_limited(
    p: Parsing,
    other: int,
    scrutinee: ExprId,
    body: PatternBody,
)
    ensures
        limited(
            p,
            body_condition(p, scrutinee, body),
            other,
            body_condition(with_limit(p, other), scrutinee, body),
        ),
{
    reveal(body_condition);
    match body {
        PatternBody::Wildcard => {
            match span_of(p, scrutinee) {
                Err(error) => {},
                Ok(span) => {
                    push_node_limited(p, other, Form::Bool(true), span);
                },
            }
        },
        PatternBody::Value(value) => {
            push_comparison_limited(p, other, BinaryOperator::Equal, scrutinee, value);
        },
        PatternBody::Range { start, end, inclusive } => {
            noted_range_limited(p, other, RangeValidation { scrutinee, start, end, inclusive });
            match noted_range(
            p,
            RangeValidation { scrutinee, start, end, inclusive },
        ) {
                Err(error) => {},
                Ok(p) => {
                    match (start, end) {
                        (Some(start), Some(end)) => {
                            push_comparison_limited(
                                p,
                                other,
                                BinaryOperator::GreaterEqual,
                                scrutinee,
                                start,
                            );
                            match push_comparison(
                    p,
                    BinaryOperator::GreaterEqual,
                    scrutinee,
                    start,
                ) {
                                Err(error) => {},
                                Ok((p, lower)) => {
                                    push_comparison_limited(
                                        p,
                                        other,
                                        upper_operator(inclusive),
                                        scrutinee,
                                        end,
                                    );
                                    match push_comparison(
                        p,
                        upper_operator(inclusive),
                        scrutinee,
                        end,
                    ) {
                                        Err(error) => {},
                                        Ok((p, upper)) => {
                                            push_across_limited(
                                                p,
                                                other,
                                                Form::Binary {
                                operator: BinaryOperator::LogicalAnd,
                                left: lower,
                                right: upper,
                            },
                                                lower,
                                                upper,
                                            );
                                        },
                                    }
                                },
                            }
                        },
                        (Some(start), None) => {
                            push_comparison_limited(
                                p,
                                other,
                                BinaryOperator::GreaterEqual,
                                scrutinee,
                                start,
                            );
                        },
                        (None, Some(end)) => {
                            push_comparison_limited(
                                p,
                                other,
                                upper_operator(inclusive),
                                scrutinee,
                                end,
                            );
                        },
                        (None, None) => {},
                    }
                },
            }
        },
    }
}

pub(crate) proof fn alternatives_condition_limited(
    p: Parsing,
    other: int,
    scrutinee: ExprId,
    alternatives: Seq<Pattern>,
    count: int,
)
    ensures
        limited(
            p,
            alternatives_condition(p, scrutinee, alternatives, count),
            other,
            alternatives_condition(with_limit(p, other), scrutinee, alternatives, count),
        ),
    decreases count,
{
    reveal(alternatives_condition);
    if count <= 0 {
    } else {
        alternatives_condition_limited(p, other, scrutinee, alternatives, count - 1);
        match alternatives_condition(p, scrutinee, alternatives, count - 1) {
            Err(error) => {},
            Ok((p, before)) => {
                body_condition_limited(
                    p,
                    other,
                    scrutinee,
                    deciding_body(alternatives[count - 1]),
                );
                match body_condition(
                p,
                scrutinee,
                deciding_body(alternatives[count - 1]),
            ) {
                    Err(error) => {},
                    Ok((p, last)) => {
                        match before {
                            None => {},
                            Some(previous) => {
                                push_across_limited(
                                    p,
                                    other,
                                    Form::Binary {
                            operator: BinaryOperator::LogicalOr,
                            left: previous,
                            right: last,
                        },
                                    previous,
                                    last,
                                );
                            },
                        }
                    },
                }
            },
        }
    }
}

pub(crate) proof fn decision_limited(
    p: Parsing,
    other: int,
    scrutinee: ExprId,
    arms: Seq<Arm>,
    count: int,
    otherwise: ExprId,
    span: Span,
    match_span: Span,
)
    ensures
        limited(
            p,
            decision(p, scrutinee, arms, count, otherwise, span, match_span),
            other,
            decision(with_limit(p, other), scrutinee, arms, count, otherwise, span, match_span),
        ),
    decreases count,
{
    reveal(decision);
    if count <= 0 {
    } else {
        let arm = arms[count - 1];
        alternatives_condition_limited(
            p,
            other,
            scrutinee,
            arm.alternatives,
            arm.alternatives.len() as int,
        );
        match alternatives_condition(
            p,
            scrutinee,
            arm.alternatives,
            arm.alternatives.len() as int,
        ) {
            Err(error) => {},
            Ok((p, None)) => {},
            Ok((p, Some(condition))) => {
                guarded_condition_limited(p, other, condition, arm.guard);
                match guarded_condition(p, condition, arm.guard) {
                    Err(error) => {},
                    Ok((p, condition)) => {
                        push_node_limited(
                            p,
                            other,
                            Form::If { condition, then_branch: arm.branch, else_branch: otherwise },
                            span,
                        );
                        match push_node(
                    p,
                    Form::If { condition, then_branch: arm.branch, else_branch: otherwise },
                    span,
                ) {
                            Err(error) => {},
                            Ok((p, next)) => {
                                decision_limited(
                                    p,
                                    other,
                                    scrutinee,
                                    arms,
                                    count - 1,
                                    next,
                                    span,
                                    match_span,
                                );
                            },
                        }
                    },
                }
            },
        }
    }
}

pub(crate) proof fn guarded_condition_limited(
    p: Parsing,
    other: int,
    condition: ExprId,
    guard: Option<ExprId>,
)
    ensures
        limited(
            p,
            guarded_condition(p, condition, guard),
            other,
            guarded_condition(with_limit(p, other), condition, guard),
        ),
{
    match guard {
        None => {},
        Some(guard) => {
            push_across_limited(
                p,
                other,
                Form::Binary { operator: BinaryOperator::LogicalAnd, left: condition, right: guard },
                condition,
                guard,
            );
        },
    }
}

pub(crate) proof fn sequenced_limited(
    p: Parsing,
    other: int,
    statements: Seq<ExprId>,
    count: int,
    tail: ExprId,
)
    ensures
        limited(
            p,
            sequenced(p, statements, count, tail),
            other,
            sequenced(with_limit(p, other), statements, count, tail),
        ),
    decreases count,
{
    reveal(sequenced);
    if count <= 0 {
    } else {
        let first = statements[count - 1];
        push_across_limited(p, other, Form::Sequence { first, then: tail }, first, tail);
        match push_across(p, Form::Sequence { first, then: tail }, first, tail) {
            Err(error) => {},
            Ok((p, next)) => {
                sequenced_limited(p, other, statements, count - 1, next);
            },
        }
    }
}

pub(crate) proof fn loop_exits_limited(
    p: Parsing,
    other: int,
    conditions: Seq<ExprId>,
    branches: Seq<ExprId>,
    count: int,
    otherwise: ExprId,
    span: Span,
)
    ensures
        limited(
            p,
            loop_exits(p, conditions, branches, count, otherwise, span),
            other,
            loop_exits(with_limit(p, other), conditions, branches, count, otherwise, span),
        ),
    decreases count,
{
    reveal(loop_exits);
    if count <= 0 {
    } else {
        push_node_limited(
            p,
            other,
            Form::LoopBreakIf {
                condition: conditions[count - 1],
                then_branch: branches[count - 1],
                else_branch: otherwise,
            },
            span,
        );
        match push_node(
            p,
            Form::LoopBreakIf {
                condition: conditions[count - 1],
                then_branch: branches[count - 1],
                else_branch: otherwise,
            },
            span,
        ) {
            Err(error) => {},
            Ok((p, next)) => {
                loop_exits_limited(p, other, conditions, branches, count - 1, next, span);
            },
        }
    }
}

pub(crate) proof fn parsed_break_target_limited(
    p: Parsing,
    other: int,
    current: Option<Word>,
    enclosing: Option<Word>,
)
    ensures
        limited(
            p,
            parsed_break_target(p, current, enclosing),
            other,
            parsed_break_target(with_limit(p, other), current, enclosing),
        ),
{
    reveal(parsed_break_target);
    next_is_limited(p, other, TokenKind::Lifetime);
    match next_is(p, TokenKind::Lifetime) {
        Err(error) => {},
        Ok((p, false)) => {},
        Ok((p, true)) => {
            take_limited(p, other);
        },
    }
}

pub(crate) proof fn expect_break_target_limited(
    p: Parsing,
    other: int,
    current: Option<Word>,
    enclosing: Option<Word>,
    target: ValueLoopControlTarget,
    word: Option<Word>,
)
    ensures
        limited_state(
            p,
            expect_break_target(p, current, enclosing, target, word),
            other,
            expect_break_target(with_limit(p, other), current, enclosing, target, word),
        ),
{
    reveal(expect_break_target);
    parsed_break_target_limited(p, other, current, enclosing);
}

pub(crate) proof fn skipped_body_limited(
    p: Parsing,
    other: int,
    depth: int,
)
    ensures
        limited_state(
            p,
            skipped_body(p, depth),
            other,
            skipped_body(with_limit(p, other), depth),
        ),
    decreases remaining(p),
{
    reveal(skipped_body);
    if depth <= 0 {
    } else {
        take_limited(p, other);
        match take(p) {
            Err(error) => {},
            Ok((q, None)) => {},
            Ok((q, Some(word))) => {
                if !advances(p, q) {
                } else {
                    if word.kind == TokenKind::OpenBrace {
                        if depth == MAX_EXPRESSION_DEPTH {
                        } else {
                            skipped_body_limited(q, other, depth + 1);
                        }
                    } else {
                        if word.kind == TokenKind::CloseBrace {
                            skipped_body_limited(q, other, depth - 1);
                        } else {
                            skipped_body_limited(q, other, depth);
                        }
                    }
                }
            },
        }
    }
}

pub(crate) proof fn parsed_expression_limited(
    p: Parsing,
    other: int,
    minimum: int,
    depth: int,
)
    ensures
        limited(
            p,
            parsed_expression(p, minimum, depth),
            other,
            parsed_expression(with_limit(p, other), minimum, depth),
        ),
    decreases room(depth), 20int, 0int,
{
    parsed_expression_rule(p, minimum, depth);
    parsed_expression_rule(with_limit(p, other), minimum, depth);
    if level_refused(depth) {
    } else {
        parsed_cast_limited(p, other, depth + 1);
        match parsed_cast(p, depth + 1) {
            Err(error) => {},
            Ok((p, left)) => {
                parsed_operators_limited(p, other, left, minimum, depth);
            },
        }
    }
}

pub(crate) proof fn parsed_operators_limited(
    p: Parsing,
    other: int,
    left: ExprId,
    minimum: int,
    depth: int,
)
    ensures
        limited(
            p,
            parsed_operators(p, left, minimum, depth),
            other,
            parsed_operators(with_limit(p, other), left, minimum, depth),
        ),
    decreases room(depth), 10int, remaining(p),
{
    parsed_operators_rule(p, left, minimum, depth);
    parsed_operators_rule(with_limit(p, other), left, minimum, depth);
    if level_refused(depth) {
    } else {
        peek_limited(p, other);
        match peek(p) {
            Err(error) => {},
            Ok(q) => {
                match front(q) {
                    None => {},
                    Some(word) => {
                        match operator_named(word.text) {
                            None => {},
                            Some((operator, precedence)) => {
                                if precedence < minimum {
                                } else {
                                    take_limited(q, other);
                                    match take(q) {
                                        Err(error) => {},
                                        Ok((q, _)) => {
                                            parsed_expression_limited(
                                                q,
                                                other,
                                                precedence + 1,
                                                depth + 1,
                                            );
                                            match parsed_expression(q, precedence + 1, depth + 1) {
                                                Err(error) => {},
                                                Ok((q, right)) => {
                                                    push_across_limited(
                                                        q,
                                                        other,
                                                        Form::Binary { operator, left, right },
                                                        left,
                                                        right,
                                                    );
                                                    match push_across(
                                    q,
                                    Form::Binary { operator, left, right },
                                    left,
                                    right,
                                ) {
                                                        Err(error) => {},
                                                        Ok((q, both)) => {
                                                            if advances(p, q) {
                                                                parsed_operators_limited(
                                                                    q,
                                                                    other,
                                                                    both,
                                                                    minimum,
                                                                    depth,
                                                                );
                                                            }
                                                        },
                                                    }
                                                },
                                            }
                                        },
                                    }
                                }
                            },
                        }
                    },
                }
            },
        }
    }
}

pub(crate) proof fn parsed_cast_limited(
    p: Parsing,
    other: int,
    depth: int,
)
    ensures
        limited(
            p,
            parsed_cast(p, depth),
            other,
            parsed_cast(with_limit(p, other), depth),
        ),
    decreases room(depth), 20int, 0int,
{
    parsed_cast_rule(p, depth);
    parsed_cast_rule(with_limit(p, other), depth);
    if level_refused(depth) {
    } else {
        parsed_unary_limited(p, other, depth + 1);
        match parsed_unary(p, depth + 1) {
            Err(error) => {},
            Ok((p, operand)) => {
                parsed_casts_limited(p, other, operand);
            },
        }
    }
}

pub(crate) proof fn parsed_casts_limited(
    p: Parsing,
    other: int,
    operand: ExprId,
)
    ensures
        limited(
            p,
            parsed_casts(p, operand),
            other,
            parsed_casts(with_limit(p, other), operand),
        ),
    decreases remaining(p),
{
    next_reads_limited(p, other, "as"@);
    match next_reads(p, "as"@) {
        Err(error) => {},
        Ok((q, false)) => {},
        Ok((q, true)) => {
            take_limited(q, other);
            match take(q) {
                Err(error) => {},
                Ok((q, _)) => {
                    expect_kind_limited(
                        q,
                        other,
                        TokenKind::Identifier,
                        ExpressionErrorKind::ExpectedCastType,
                    );
                    match expect_kind(
                q,
                TokenKind::Identifier,
                ExpressionErrorKind::ExpectedCastType,
            ) {
                        Err(error) => {},
                        Ok((q, word)) => {
                            match integer_type_named(word.text) {
                                None => {},
                                Some(target) => {
                                    match span_of(q, operand) {
                                        Err(error) => {},
                                        Ok(span) => {
                                            push_node_limited(
                                                q,
                                                other,
                                                Form::Cast { operand, target },
                                                Span { start: span.start, end: word.span.end },
                                            );
                                            match push_node(
                            q,
                            Form::Cast { operand, target },
                            Span { start: span.start, end: word.span.end },
                        ) {
                                                Err(error) => {},
                                                Ok((q, cast)) => {
                                                    if advances(p, q) {
                                                        parsed_casts_limited(q, other, cast);
                                                    }
                                                },
                                            }
                                        },
                                    }
                                },
                            }
                        },
                    }
                },
            }
        },
    }
}

pub(crate) proof fn parsed_unary_limited(
    p: Parsing,
    other: int,
    depth: int,
)
    ensures
        limited(
            p,
            parsed_unary(p, depth),
            other,
            parsed_unary(with_limit(p, other), depth),
        ),
    decreases room(depth), 20int, 0int,
{
    parsed_unary_rule(p, depth);
    parsed_unary_rule(with_limit(p, other), depth);
    if level_refused(depth) {
    } else {
        peek_limited(p, other);
        match peek(p) {
            Err(error) => {},
            Ok(p) => {
                match front(p) {
                    None => {
                        parsed_postfix_limited(p, other, depth + 1);
                    },
                    Some(word) => {
                        match prefix_operator(word.text) {
                            None => {
                                parsed_postfix_limited(p, other, depth + 1);
                            },
                            Some(operator) => {
                                take_limited(p, other);
                                match take(p) {
                                    Err(error) => {},
                                    Ok((p, _)) => {
                                        parsed_mutability_limited(p, other, operator);
                                        match parsed_mutability(p, operator) {
                                            Err(error) => {},
                                            Ok((p, operator)) => {
                                                parsed_unary_limited(p, other, depth + 1);
                                                match parsed_unary(p, depth + 1) {
                                                    Err(error) => {},
                                                    Ok((p, operand)) => {
                                                        push_from_limited(
                                                            p,
                                                            other,
                                                            Form::Unary { operator, operand },
                                                            word.span.start,
                                                            operand,
                                                        );
                                                    },
                                                }
                                            },
                                        }
                                    },
                                }
                            },
                        }
                    },
                }
            },
        }
    }
}

pub(crate) proof fn parsed_mutability_limited(
    p: Parsing,
    other: int,
    operator: UnaryOperator,
)
    ensures
        limited(
            p,
            parsed_mutability(p, operator),
            other,
            parsed_mutability(with_limit(p, other), operator),
        ),
{
    if operator != UnaryOperator::AddressOf {
    } else {
        next_reads_limited(p, other, "mut"@);
        match next_reads(p, "mut"@) {
            Err(error) => {},
            Ok((p, false)) => {},
            Ok((p, true)) => {
                take_limited(p, other);
            },
        }
    }
}

pub(crate) proof fn parsed_postfix_limited(
    p: Parsing,
    other: int,
    depth: int,
)
    ensures
        limited(
            p,
            parsed_postfix(p, depth),
            other,
            parsed_postfix(with_limit(p, other), depth),
        ),
    decreases room(depth), 110int, 0int,
{
    parsed_postfix_rule(p, depth);
    parsed_postfix_rule(with_limit(p, other), depth);
    parsed_atom_limited(p, other, depth);
    match parsed_atom(p, depth) {
        Err(error) => {},
        Ok((p, base)) => {
            parsed_suffixes_limited(p, other, base, depth);
        },
    }
}

pub(crate) proof fn parsed_suffixes_limited(
    p: Parsing,
    other: int,
    base: ExprId,
    depth: int,
)
    ensures
        limited(
            p,
            parsed_suffixes(p, base, depth),
            other,
            parsed_suffixes(with_limit(p, other), base, depth),
        ),
    decreases room(depth), 109int, remaining(p),
{
    parsed_suffixes_rule(p, base, depth);
    parsed_suffixes_rule(with_limit(p, other), base, depth);
    peek_limited(p, other);
    match peek(p) {
        Err(error) => {},
        Ok(q) => {
            if is_kind(front(q), TokenKind::OpenBracket) {
                take_limited(q, other);
                match take(q) {
                    Err(error) => {},
                    Ok((q, _)) => {
                        parsed_index_limited(q, other, base, depth);
                        match parsed_index(q, base, depth) {
                            Err(error) => {},
                            Ok((q, indexed)) => {
                                if advances(p, q) {
                                    parsed_suffixes_limited(q, other, indexed, depth);
                                }
                            },
                        }
                    },
                }
            } else {
                if is_kind(front(q), TokenKind::Dot) {
                    take_limited(q, other);
                    match take(q) {
                        Err(error) => {},
                        Ok((r, _)) => {
                            next_is_limited(r, other, TokenKind::Identifier);
                            match next_is(r, TokenKind::Identifier) {
                                Err(error) => {},
                                Ok((_, false)) => {},
                                Ok((r, true)) => {
                                    parsed_method_limited(r, other, base, depth);
                                    match parsed_method(r, base, depth) {
                                        Err(error) => {},
                                        Ok((r, called)) => {
                                            if advances(p, r) {
                                                parsed_suffixes_limited(r, other, called, depth);
                                            }
                                        },
                                    }
                                },
                            }
                        },
                    }
                }
            }
        },
    }
}

pub(crate) proof fn parsed_index_limited(
    p: Parsing,
    other: int,
    base: ExprId,
    depth: int,
)
    ensures
        limited(
            p,
            parsed_index(p, base, depth),
            other,
            parsed_index(with_limit(p, other), base, depth),
        ),
    decreases room(depth), 108int, 0int,
{
    parsed_index_rule(p, base, depth);
    parsed_index_rule(with_limit(p, other), base, depth);
    next_is_limited(p, other, TokenKind::Dot);
    match next_is(p, TokenKind::Dot) {
        Err(error) => {},
        Ok((p, true)) => {
            parsed_index_range_limited(p, other, base, None, depth);
        },
        Ok((p, false)) => {
            parsed_expression_limited(p, other, 0, depth + 1);
            match parsed_expression(p, 0, depth + 1) {
                Err(error) => {},
                Ok((p, index)) => {
                    next_is_limited(p, other, TokenKind::Dot);
                    match next_is(p, TokenKind::Dot) {
                        Err(error) => {},
                        Ok((p, true)) => {
                            parsed_index_range_limited(p, other, base, Some(index), depth);
                        },
                        Ok((p, false)) => {
                            expect_kind_limited(
                                p,
                                other,
                                TokenKind::CloseBracket,
                                ExpressionErrorKind::ExpectedCloseBracket,
                            );
                            match expect_kind(
                    p,
                    TokenKind::CloseBracket,
                    ExpressionErrorKind::ExpectedCloseBracket,
                ) {
                                Err(error) => {},
                                Ok((p, close)) => {
                                    push_to_limited(
                                        p,
                                        other,
                                        Form::Index { base, index },
                                        base,
                                        close,
                                    );
                                },
                            }
                        },
                    }
                },
            }
        },
    }
}

pub(crate) proof fn push_to_limited(
    p: Parsing,
    other: int,
    form: Form,
    first: ExprId,
    last: Word,
)
    ensures
        limited(
            p,
            push_to(p, form, first, last),
            other,
            push_to(with_limit(p, other), form, first, last),
        ),
{
    match span_of(p, first) {
        Err(error) => {},
        Ok(span) => {
            push_node_limited(p, other, form, Span { start: span.start, end: last.span.end });
        },
    }
}

pub(crate) proof fn parsed_index_range_limited(
    p: Parsing,
    other: int,
    base: ExprId,
    start: Option<ExprId>,
    depth: int,
)
    ensures
        limited(
            p,
            parsed_index_range(p, base, start, depth),
            other,
            parsed_index_range(with_limit(p, other), base, start, depth),
        ),
    decreases room(depth), 107int, 0int,
{
    parsed_index_range_rule(p, base, start, depth);
    parsed_index_range_rule(with_limit(p, other), base, start, depth);
    take_limited(p, other);
    match take(p) {
        Err(error) => {},
        Ok((p, _)) => {
            expect_kind_limited(p, other, TokenKind::Dot, ExpressionErrorKind::ExpectedExpression);
            match expect_kind(p, TokenKind::Dot, ExpressionErrorKind::ExpectedExpression) {
                Err(error) => {},
                Ok((p, _)) => {
                    next_operator_limited(p, other, "="@);
                    match next_operator(p, "="@) {
                        Err(error) => {},
                        Ok((p, true)) => {
                            take_limited(p, other);
                            match take(p) {
                                Err(error) => {},
                                Ok((p, _)) => {
                                    parsed_expression_limited(p, other, 0, depth + 1);
                                    match parsed_expression(p, 0, depth + 1) {
                                        Err(error) => {},
                                        Ok((p, end)) => {
                                            closed_index_range_limited(
                                                p,
                                                other,
                                                base,
                                                start,
                                                Some(end),
                                                true,
                                            );
                                        },
                                    }
                                },
                            }
                        },
                        Ok((p, false)) => {
                            if is_kind(front(p), TokenKind::CloseBracket) {
                                closed_index_range_limited(p, other, base, start, None, false);
                            } else {
                                parsed_expression_limited(p, other, 0, depth + 1);
                                match parsed_expression(p, 0, depth + 1) {
                                    Err(error) => {},
                                    Ok((p, end)) => {
                                        closed_index_range_limited(
                                            p,
                                            other,
                                            base,
                                            start,
                                            Some(end),
                                            false,
                                        );
                                    },
                                }
                            }
                        },
                    }
                },
            }
        },
    }
}

pub(crate) proof fn closed_index_range_limited(
    p: Parsing,
    other: int,
    base: ExprId,
    start: Option<ExprId>,
    end: Option<ExprId>,
    inclusive: bool,
)
    ensures
        limited(
            p,
            closed_index_range(p, base, start, end, inclusive),
            other,
            closed_index_range(with_limit(p, other), base, start, end, inclusive),
        ),
{
    expect_kind_limited(
        p,
        other,
        TokenKind::CloseBracket,
        ExpressionErrorKind::ExpectedCloseBracket,
    );
    match expect_kind(
        p,
        TokenKind::CloseBracket,
        ExpressionErrorKind::ExpectedCloseBracket,
    ) {
        Err(error) => {},
        Ok((p, close)) => {
            push_to_limited(
                p,
                other,
                Form::RangeIndex { base, start, end, inclusive },
                base,
                close,
            );
        },
    }
}

pub(crate) proof fn parsed_method_limited(
    p: Parsing,
    other: int,
    base: ExprId,
    depth: int,
)
    ensures
        limited(
            p,
            parsed_method(p, base, depth),
            other,
            parsed_method(with_limit(p, other), base, depth),
        ),
    decreases room(depth), 108int, 0int,
{
    parsed_method_rule(p, base, depth);
    parsed_method_rule(with_limit(p, other), base, depth);
    expect_kind_limited(p, other, TokenKind::Identifier, ExpressionErrorKind::ExpectedIdentifier);
    match expect_kind(p, TokenKind::Identifier, ExpressionErrorKind::ExpectedIdentifier) {
        Err(error) => {},
        Ok((p, name)) => {
            if name.text == "is_char_boundary"@ {
                expect_kind_limited(
                    p,
                    other,
                    TokenKind::OpenParen,
                    ExpressionErrorKind::ExpectedExpression,
                );
                match expect_kind(p, TokenKind::OpenParen, ExpressionErrorKind::ExpectedExpression) {
                    Err(error) => {},
                    Ok((p, _)) => {
                        parsed_expression_limited(p, other, 0, depth + 1);
                        match parsed_expression(p, 0, depth + 1) {
                            Err(error) => {},
                            Ok((p, index)) => {
                                expect_kind_limited(
                                    p,
                                    other,
                                    TokenKind::CloseParen,
                                    ExpressionErrorKind::ExpectedCloseParen,
                                );
                                match expect_kind(
                        p,
                        TokenKind::CloseParen,
                        ExpressionErrorKind::ExpectedCloseParen,
                    ) {
                                    Err(error) => {},
                                    Ok((p, close)) => {
                                        push_to_limited(
                                            p,
                                            other,
                                            Form::StrIsCharBoundary { base, index },
                                            base,
                                            close,
                                        );
                                    },
                                }
                            },
                        }
                    },
                }
            } else {
                match method_form(name.text, base) {
                    None => {},
                    Some(form) => {
                        expect_kind_limited(
                            p,
                            other,
                            TokenKind::OpenParen,
                            ExpressionErrorKind::ExpectedExpression,
                        );
                        match expect_kind(
                    p,
                    TokenKind::OpenParen,
                    ExpressionErrorKind::ExpectedExpression,
                ) {
                            Err(error) => {},
                            Ok((p, _)) => {
                                expect_kind_limited(
                                    p,
                                    other,
                                    TokenKind::CloseParen,
                                    ExpressionErrorKind::ExpectedCloseParen,
                                );
                                match expect_kind(
                        p,
                        TokenKind::CloseParen,
                        ExpressionErrorKind::ExpectedCloseParen,
                    ) {
                                    Err(error) => {},
                                    Ok((p, close)) => {
                                        push_to_limited(p, other, form, base, close);
                                    },
                                }
                            },
                        }
                    },
                }
            }
        },
    }
}

pub(crate) proof fn parsed_atom_limited(
    p: Parsing,
    other: int,
    depth: int,
)
    ensures
        limited(
            p,
            parsed_atom(p, depth),
            other,
            parsed_atom(with_limit(p, other), depth),
        ),
    decreases room(depth), 104int, 0int,
{
    parsed_atom_rule(p, depth);
    parsed_atom_rule(with_limit(p, other), depth);
    if level_refused(depth) {
    } else {
        take_limited(p, other);
        match take(p) {
            Err(error) => {},
            Ok((p, None)) => {},
            Ok((p, Some(word))) => {
                parsed_atom_from_limited(p, other, word, depth);
            },
        }
    }
}

pub(crate) proof fn parsed_atom_from_limited(
    p: Parsing,
    other: int,
    word: Word,
    depth: int,
)
    ensures
        limited(
            p,
            parsed_atom_from(p, word, depth),
            other,
            parsed_atom_from(with_limit(p, other), word, depth),
        ),
    decreases room(depth), 103int, 0int,
{
    parsed_atom_from_rule(p, word, depth);
    parsed_atom_from_rule(with_limit(p, other), word, depth);
    if word.text == "break"@ {
        parsed_break_limited(p, other, word, depth);
    } else {
        if word.kind == TokenKind::Integer {
            push_integer_limited(p, other, word);
        } else {
            if word.kind == TokenKind::Character {
                push_character_limited(p, other, word);
            } else {
                if word.text == "if"@ {
                    parsed_if_limited(p, other, word, depth + 1);
                } else {
                    if word.text == "match"@ {
                        parsed_match_limited(p, other, word, depth + 1);
                    } else {
                        if word.text == "loop"@ {
                            parsed_loop_limited(p, other, word, None, depth + 1);
                        } else {
                            if word.kind == TokenKind::Lifetime {
                                parsed_labelled_limited(p, other, word, depth);
                            } else {
                                if word.text == "const"@ {
                                    parsed_const_limited(p, other, word, depth + 1);
                                } else {
                                    parsed_plain_atom_limited(p, other, word, depth);
                                }
                            }
                        }
                    }
                }
            }
        }
    }
}

pub(crate) proof fn parsed_labelled_limited(
    p: Parsing,
    other: int,
    label: Word,
    depth: int,
)
    ensures
        limited(
            p,
            parsed_labelled(p, label, depth),
            other,
            parsed_labelled(with_limit(p, other), label, depth),
        ),
    decreases room(depth), 102int, 0int,
{
    parsed_labelled_rule(p, label, depth);
    parsed_labelled_rule(with_limit(p, other), label, depth);
    expect_kind_limited(p, other, TokenKind::Colon, ExpressionErrorKind::ExpectedColon);
    match expect_kind(p, TokenKind::Colon, ExpressionErrorKind::ExpectedColon) {
        Err(error) => {},
        Ok((p, _)) => {
            expect_text_limited(p, other, "loop"@, ExpressionErrorKind::ExpectedExpression);
            match expect_text(p, "loop"@, ExpressionErrorKind::ExpectedExpression) {
                Err(error) => {},
                Ok((p, word)) => {
                    parsed_loop_limited(p, other, word, Some(label), depth + 1);
                },
            }
        },
    }
}

pub(crate) proof fn parsed_plain_atom_limited(
    p: Parsing,
    other: int,
    word: Word,
    depth: int,
)
    ensures
        limited(
            p,
            parsed_plain_atom(p, word, depth),
            other,
            parsed_plain_atom(with_limit(p, other), word, depth),
        ),
    decreases room(depth), 101int, 0int,
{
    parsed_plain_atom_rule(p, word, depth);
    parsed_plain_atom_rule(with_limit(p, other), word, depth);
    if word.kind == TokenKind::Identifier {
        parsed_name_limited(p, other, word, depth);
    } else {
        if word.kind == TokenKind::OpenParen {
            parsed_parentheses_limited(p, other, word, depth);
        } else {
            if word.kind == TokenKind::OpenBracket {
                parsed_array_limited(p, other, word, depth);
            } else {
                if word.kind == TokenKind::OpenBrace {
                    parsed_block_limited(p, other, depth + 2);
                }
            }
        }
    }
}

pub(crate) proof fn parsed_break_limited(
    p: Parsing,
    other: int,
    word: Word,
    depth: int,
)
    ensures
        limited(
            p,
            parsed_break(p, word, depth),
            other,
            parsed_break(with_limit(p, other), word, depth),
        ),
    decreases room(depth), 90int, 0int,
{
    parsed_break_rule(p, word, depth);
    parsed_break_rule(with_limit(p, other), word, depth);
    next_is_limited(p, other, TokenKind::CloseBrace);
    match next_is(p, TokenKind::CloseBrace) {
        Err(error) => {},
        Ok((p, true)) => {
            push_node_limited(p, other, Form::Identifier(word.text), word.span);
        },
        Ok((p, false)) => {
            parsed_nested_break_operand_limited(p, other, depth + 1);
            match parsed_nested_break_operand(p, depth + 1) {
                Err(error) => {},
                Ok((p, operand)) => {
                    push_from_limited(
                        p,
                        other,
                        Form::LoopBreak { operand },
                        word.span.start,
                        operand,
                    );
                },
            }
        },
    }
}

pub(crate) proof fn push_unit_at_limited(
    p: Parsing,
    other: int,
    word: Word,
)
    ensures
        limited(
            p,
            push_unit_at(p, word),
            other,
            push_unit_at(with_limit(p, other), word),
        ),
{
    push_node_limited(p, other, Form::Unit, Span { start: word.span.start, end: word.span.start });
}

pub(crate) proof fn parsed_nested_break_operand_limited(
    p: Parsing,
    other: int,
    depth: int,
)
    ensures
        limited(
            p,
            parsed_nested_break_operand(p, depth),
            other,
            parsed_nested_break_operand(with_limit(p, other), depth),
        ),
    decreases room(depth), 30int, 0int,
{
    parsed_nested_break_operand_rule(p, depth);
    parsed_nested_break_operand_rule(with_limit(p, other), depth);
    next_is_limited(p, other, TokenKind::Semicolon);
    match next_is(p, TokenKind::Semicolon) {
        Err(error) => {},
        Ok((p, true)) => {
            push_unit_at_limited(p, other, front(p)->0);
        },
        Ok((p, false)) => {
            parsed_expression_limited(p, other, 0, depth + 1);
        },
    }
}

pub(crate) proof fn parsed_name_limited(
    p: Parsing,
    other: int,
    word: Word,
    depth: int,
)
    ensures
        limited(
            p,
            parsed_name(p, word, depth),
            other,
            parsed_name(with_limit(p, other), word, depth),
        ),
    decreases room(depth), 90int, 0int,
{
    parsed_name_rule(p, word, depth);
    parsed_name_rule(with_limit(p, other), word, depth);
    if word.text == "Default"@ {
        next_is_limited(p, other, TokenKind::PathSeparator);
        match next_is(p, TokenKind::PathSeparator) {
            Err(error) => {},
            Ok((p, true)) => {
                parsed_default_limited(p, other, word);
            },
            Ok((p, false)) => {
                parsed_plain_name_limited(p, other, word, depth);
            },
        }
    } else {
        parsed_plain_name_limited(p, other, word, depth);
    }
}

pub(crate) proof fn parsed_default_limited(
    p: Parsing,
    other: int,
    word: Word,
)
    ensures
        limited(
            p,
            parsed_default(p, word),
            other,
            parsed_default(with_limit(p, other), word),
        ),
{
    take_limited(p, other);
    match take(p) {
        Err(error) => {},
        Ok((p, _)) => {
            expect_text_limited(p, other, "default"@, ExpressionErrorKind::ExpectedExpression);
            match expect_text(p, "default"@, ExpressionErrorKind::ExpectedExpression) {
                Err(error) => {},
                Ok((p, _)) => {
                    expect_kind_limited(
                        p,
                        other,
                        TokenKind::OpenParen,
                        ExpressionErrorKind::ExpectedExpression,
                    );
                    match expect_kind(
                p,
                TokenKind::OpenParen,
                ExpressionErrorKind::ExpectedExpression,
            ) {
                        Err(error) => {},
                        Ok((p, _)) => {
                            expect_kind_limited(
                                p,
                                other,
                                TokenKind::CloseParen,
                                ExpressionErrorKind::ExpectedCloseParen,
                            );
                            match expect_kind(
                    p,
                    TokenKind::CloseParen,
                    ExpressionErrorKind::ExpectedCloseParen,
                ) {
                                Err(error) => {},
                                Ok((p, close)) => {
                                    push_node_limited(
                                        p,
                                        other,
                                        Form::DefaultValue,
                                        Span { start: word.span.start, end: close.span.end },
                                    );
                                },
                            }
                        },
                    }
                },
            }
        },
    }
}

pub(crate) proof fn parsed_plain_name_limited(
    p: Parsing,
    other: int,
    word: Word,
    depth: int,
)
    ensures
        limited(
            p,
            parsed_plain_name(p, word, depth),
            other,
            parsed_plain_name(with_limit(p, other), word, depth),
        ),
    decreases room(depth), 88int, 0int,
{
    parsed_plain_name_rule(p, word, depth);
    parsed_plain_name_rule(with_limit(p, other), word, depth);
    if word.text == "true"@ || word.text == "false"@ {
        push_node_limited(p, other, Form::Bool(word.text == "true"@), word.span);
    } else {
        next_is_limited(p, other, TokenKind::OpenParen);
        match next_is(p, TokenKind::OpenParen) {
            Err(error) => {},
            Ok((p, false)) => {
                push_node_limited(p, other, Form::Identifier(word.text), word.span);
            },
            Ok((p, true)) => {
                take_limited(p, other);
                match take(p) {
                    Err(error) => {},
                    Ok((p, _)) => {
                        next_is_limited(p, other, TokenKind::CloseParen);
                        match next_is(p, TokenKind::CloseParen) {
                            Err(error) => {},
                            Ok((p, true)) => {
                                closed_call_limited(p, other, word, seq![]);
                            },
                            Ok((p, false)) => {
                                parsed_arguments_limited(p, other, seq![], depth);
                                match parsed_arguments(p, seq![], depth) {
                                    Err(error) => {},
                                    Ok((p, arguments)) => {
                                        closed_call_limited(p, other, word, arguments);
                                    },
                                }
                            },
                        }
                    },
                }
            },
        }
    }
}

pub(crate) proof fn closed_call_limited(
    p: Parsing,
    other: int,
    word: Word,
    arguments: Seq<ExprId>,
)
    ensures
        limited(
            p,
            closed_call(p, word, arguments),
            other,
            closed_call(with_limit(p, other), word, arguments),
        ),
{
    expect_kind_limited(p, other, TokenKind::CloseParen, ExpressionErrorKind::ExpectedCloseParen);
    match expect_kind(p, TokenKind::CloseParen, ExpressionErrorKind::ExpectedCloseParen) {
        Err(error) => {},
        Ok((p, close)) => {
            push_node_limited(
                p,
                other,
                Form::Call {
                callee: word.text,
                arguments: padded(arguments, MAX_CALL_ARGUMENTS as nat),
                argument_count: arguments.len() as usize,
            },
                Span { start: word.span.start, end: close.span.end },
            );
        },
    }
}

pub(crate) proof fn parsed_arguments_limited(
    p: Parsing,
    other: int,
    found: Seq<ExprId>,
    depth: int,
)
    ensures
        limited(
            p,
            parsed_arguments(p, found, depth),
            other,
            parsed_arguments(with_limit(p, other), found, depth),
        ),
    decreases room(depth), 80int, remaining(p),
{
    parsed_arguments_rule(p, found, depth);
    parsed_arguments_rule(with_limit(p, other), found, depth);
    if found.len() >= MAX_CALL_ARGUMENTS {
        peek_limited(p, other);
    } else {
        parsed_expression_limited(p, other, 0, depth + 1);
        match parsed_expression(p, 0, depth + 1) {
            Err(error) => {},
            Ok((q, argument)) => {
                next_is_limited(q, other, TokenKind::Comma);
                match next_is(q, TokenKind::Comma) {
                    Err(error) => {},
                    Ok((q, false)) => {},
                    Ok((q, true)) => {
                        take_limited(q, other);
                        match take(q) {
                            Err(error) => {},
                            Ok((q, _)) => {
                                if advances(p, q) {
                                    parsed_arguments_limited(
                                        q,
                                        other,
                                        found.push(argument),
                                        depth,
                                    );
                                }
                            },
                        }
                    },
                }
            },
        }
    }
}

pub(crate) proof fn parsed_parentheses_limited(
    p: Parsing,
    other: int,
    open: Word,
    depth: int,
)
    ensures
        limited(
            p,
            parsed_parentheses(p, open, depth),
            other,
            parsed_parentheses(with_limit(p, other), open, depth),
        ),
    decreases room(depth), 90int, 0int,
{
    parsed_parentheses_rule(p, open, depth);
    parsed_parentheses_rule(with_limit(p, other), open, depth);
    next_is_limited(p, other, TokenKind::CloseParen);
    match next_is(p, TokenKind::CloseParen) {
        Err(error) => {},
        Ok((p, true)) => {
            expect_kind_limited(
                p,
                other,
                TokenKind::CloseParen,
                ExpressionErrorKind::ExpectedCloseParen,
            );
            match expect_kind(
            p,
            TokenKind::CloseParen,
            ExpressionErrorKind::ExpectedCloseParen,
        ) {
                Err(error) => {},
                Ok((p, close)) => {
                    push_node_limited(
                        p,
                        other,
                        Form::Unit,
                        Span { start: open.span.start, end: close.span.end },
                    );
                },
            }
        },
        Ok((p, false)) => {
            parsed_expression_limited(p, other, 0, depth + 1);
            match parsed_expression(p, 0, depth + 1) {
                Err(error) => {},
                Ok((p, inner)) => {
                    expect_kind_limited(
                        p,
                        other,
                        TokenKind::CloseParen,
                        ExpressionErrorKind::ExpectedCloseParen,
                    );
                },
            }
        },
    }
}

pub(crate) proof fn parsed_array_limited(
    p: Parsing,
    other: int,
    open: Word,
    depth: int,
)
    ensures
        limited(
            p,
            parsed_array(p, open, depth),
            other,
            parsed_array(with_limit(p, other), open, depth),
        ),
    decreases room(depth), 90int, 0int,
{
    parsed_array_rule(p, open, depth);
    parsed_array_rule(with_limit(p, other), open, depth);
    next_is_limited(p, other, TokenKind::CloseBracket);
    match next_is(p, TokenKind::CloseBracket) {
        Err(error) => {},
        Ok((p, true)) => {
            closed_array_limited(p, other, open, seq![]);
        },
        Ok((p, false)) => {
            parsed_expression_limited(p, other, 0, depth + 1);
            match parsed_expression(p, 0, depth + 1) {
                Err(error) => {},
                Ok((p, first)) => {
                    next_is_limited(p, other, TokenKind::Semicolon);
                    match next_is(p, TokenKind::Semicolon) {
                        Err(error) => {},
                        Ok((p, true)) => {
                            parsed_repeat_limited(p, other, open, first);
                        },
                        Ok((p, false)) => {
                            parsed_elements_limited(p, other, seq![first], depth);
                            match parsed_elements(p, seq![first], depth) {
                                Err(error) => {},
                                Ok((p, elements)) => {
                                    closed_array_limited(p, other, open, elements);
                                },
                            }
                        },
                    }
                },
            }
        },
    }
}

pub(crate) proof fn closed_array_limited(
    p: Parsing,
    other: int,
    open: Word,
    elements: Seq<ExprId>,
)
    ensures
        limited(
            p,
            closed_array(p, open, elements),
            other,
            closed_array(with_limit(p, other), open, elements),
        ),
{
    expect_kind_limited(
        p,
        other,
        TokenKind::CloseBracket,
        ExpressionErrorKind::ExpectedCloseBracket,
    );
    match expect_kind(
        p,
        TokenKind::CloseBracket,
        ExpressionErrorKind::ExpectedCloseBracket,
    ) {
        Err(error) => {},
        Ok((p, close)) => {
            push_node_limited(
                p,
                other,
                Form::Array {
                elements: padded(elements, MAX_ARRAY_ELEMENTS as nat),
                element_count: elements.len() as usize,
            },
                Span { start: open.span.start, end: close.span.end },
            );
        },
    }
}

pub(crate) proof fn parsed_repeat_limited(
    p: Parsing,
    other: int,
    open: Word,
    element: ExprId,
)
    ensures
        limited(
            p,
            parsed_repeat(p, open, element),
            other,
            parsed_repeat(with_limit(p, other), open, element),
        ),
{
    take_limited(p, other);
    match take(p) {
        Err(error) => {},
        Ok((p, _)) => {
            expect_kind_limited(
                p,
                other,
                TokenKind::Integer,
                ExpressionErrorKind::InvalidArrayLength,
            );
            match expect_kind(
            p,
            TokenKind::Integer,
            ExpressionErrorKind::InvalidArrayLength,
        ) {
                Err(error) => {},
                Ok((p, word)) => {
                    match integer_literal(word.text) {
                        Err(kind) => {},
                        Ok((value, _)) => {
                            if value > MAX_ARRAY_ELEMENTS {
                            } else {
                                expect_kind_limited(
                                    p,
                                    other,
                                    TokenKind::CloseBracket,
                                    ExpressionErrorKind::ExpectedCloseBracket,
                                );
                                match expect_kind(
                        p,
                        TokenKind::CloseBracket,
                        ExpressionErrorKind::ExpectedCloseBracket,
                    ) {
                                    Err(error) => {},
                                    Ok((p, close)) => {
                                        push_node_limited(
                                            p,
                                            other,
                                            Form::ArrayRepeat { element, count: value as usize },
                                            Span { start: open.span.start, end: close.span.end },
                                        );
                                    },
                                }
                            }
                        },
                    }
                },
            }
        },
    }
}

pub(crate) proof fn parsed_elements_limited(
    p: Parsing,
    other: int,
    found: Seq<ExprId>,
    depth: int,
)
    ensures
        limited(
            p,
            parsed_elements(p, found, depth),
            other,
            parsed_elements(with_limit(p, other), found, depth),
        ),
    decreases room(depth), 80int, remaining(p),
{
    parsed_elements_rule(p, found, depth);
    parsed_elements_rule(with_limit(p, other), found, depth);
    next_is_limited(p, other, TokenKind::Comma);
    match next_is(p, TokenKind::Comma) {
        Err(error) => {},
        Ok((q, false)) => {},
        Ok((q, true)) => {
            take_limited(q, other);
            match take(q) {
                Err(error) => {},
                Ok((q, _)) => {
                    next_is_limited(q, other, TokenKind::CloseBracket);
                    match next_is(q, TokenKind::CloseBracket) {
                        Err(error) => {},
                        Ok((q, true)) => {},
                        Ok((q, false)) => {
                            if found.len() >= MAX_ARRAY_ELEMENTS {
                            } else {
                                parsed_expression_limited(q, other, 0, depth + 1);
                                match parsed_expression(q, 0, depth + 1) {
                                    Err(error) => {},
                                    Ok((q, element)) => {
                                        if advances(p, q) {
                                            parsed_elements_limited(
                                                q,
                                                other,
                                                found.push(element),
                                                depth,
                                            );
                                        }
                                    },
                                }
                            }
                        },
                    }
                },
            }
        },
    }
}

pub(crate) proof fn parsed_const_limited(
    p: Parsing,
    other: int,
    word: Word,
    depth: int,
)
    ensures
        limited(
            p,
            parsed_const(p, word, depth),
            other,
            parsed_const(with_limit(p, other), word, depth),
        ),
    decreases room(depth), 60int, 0int,
{
    parsed_const_rule(p, word, depth);
    parsed_const_rule(with_limit(p, other), word, depth);
    expect_kind_limited(p, other, TokenKind::OpenBrace, ExpressionErrorKind::ExpectedOpenBrace);
    match expect_kind(p, TokenKind::OpenBrace, ExpressionErrorKind::ExpectedOpenBrace) {
        Err(error) => {},
        Ok((p, _)) => {
            parsed_block_limited(p, other, depth);
            match parsed_block(p, depth) {
                Err(error) => {},
                Ok((p, (operand, _))) => {
                    push_from_limited(
                        p,
                        other,
                        Form::InlineConst { operand },
                        word.span.start,
                        operand,
                    );
                },
            }
        },
    }
}

pub(crate) proof fn parsed_block_limited(
    p: Parsing,
    other: int,
    depth: int,
)
    ensures
        limited(
            p,
            parsed_block(p, depth),
            other,
            parsed_block(with_limit(p, other), depth),
        ),
    decreases room(depth), 50int, 0int,
{
    parsed_block_rule(p, depth);
    parsed_block_rule(with_limit(p, other), depth);
    parsed_statements_limited(p, other, seq![], 0, seq![], depth);
    match parsed_statements(p, seq![], 0, seq![], depth) {
        Err(error) => {},
        Ok((p, (statements, tail))) => {
            expect_kind_limited(
                p,
                other,
                TokenKind::CloseBrace,
                ExpressionErrorKind::ExpectedCloseBrace,
            );
            match expect_kind(
            p,
            TokenKind::CloseBrace,
            ExpressionErrorKind::ExpectedCloseBrace,
        ) {
                Err(error) => {},
                Ok((p, close)) => {
                    sequenced_limited(p, other, statements, statements.len() as int, tail);
                },
            }
        },
    }
}

pub(crate) proof fn parsed_statements_limited(
    p: Parsing,
    other: int,
    bindings: Seq<Binding>,
    assignments: int,
    statements: Seq<ExprId>,
    depth: int,
)
    ensures
        limited(
            p,
            parsed_statements(p, bindings, assignments, statements, depth),
            other,
            parsed_statements(with_limit(p, other), bindings, assignments, statements, depth),
        ),
    decreases room(depth), 40int, remaining(p),
{
    parsed_statements_rule(p, bindings, assignments, statements, depth);
    parsed_statements_rule(with_limit(p, other), bindings, assignments, statements, depth);
    peek_limited(p, other);
    match peek(p) {
        Err(error) => {},
        Ok(q) => {
            if is_kind(front(q), TokenKind::CloseBrace) {
                push_unit_at_limited(q, other, front(q)->0);
            } else {
                if is_text(front(q), "let"@) {
                    parsed_binding_limited(q, other, bindings, depth + 1);
                    match parsed_binding(q, bindings, depth + 1) {
                        Err(error) => {},
                        Ok((q, bindings)) => {
                            if advances(p, q) {
                                parsed_statements_limited(
                                    q,
                                    other,
                                    bindings,
                                    assignments,
                                    statements,
                                    depth,
                                );
                            }
                        },
                    }
                } else {
                    parsed_assignment_limited(q, other, bindings, assignments, depth + 1);
                    match parsed_assignment(q, bindings, assignments, depth + 1) {
                        Err(error) => {},
                        Ok((q, Some(bindings))) => {
                            if advances(p, q) {
                                parsed_statements_limited(
                                    q,
                                    other,
                                    bindings,
                                    assignments + 1,
                                    statements,
                                    depth,
                                );
                            }
                        },
                        Ok((q, None)) => {
                            parsed_bound_expression_limited(q, other, bindings, depth + 1);
                            match parsed_bound_expression(q, bindings, depth + 1) {
                                Err(error) => {},
                                Ok((q, expression)) => {
                                    next_is_limited(q, other, TokenKind::Semicolon);
                                    match next_is(q, TokenKind::Semicolon) {
                                        Err(error) => {},
                                        Ok((q, false)) => {},
                                        Ok((q, true)) => {
                                            take_limited(q, other);
                                            match take(q) {
                                                Err(error) => {},
                                                Ok((q, semicolon)) => {
                                                    if statements.len()
                                >= MAX_INLINE_CONST_EXPRESSION_STATEMENTS {
                                                    } else {
                                                        if advances(p, q) {
                                                            parsed_statements_limited(
                                                                q,
                                                                other,
                                                                bindings,
                                                                assignments,
                                                                statements.push(expression),
                                                                depth,
                                                            );
                                                        }
                                                    }
                                                },
                                            }
                                        },
                                    }
                                },
                            }
                        },
                    }
                }
            }
        },
    }
}

pub(crate) proof fn parsed_bound_expression_limited(
    p: Parsing,
    other: int,
    bindings: Seq<Binding>,
    depth: int,
)
    ensures
        limited(
            p,
            parsed_bound_expression(p, bindings, depth),
            other,
            parsed_bound_expression(with_limit(p, other), bindings, depth),
        ),
    decreases room(depth), 25int, 0int,
{
    parsed_bound_expression_rule(p, bindings, depth);
    parsed_bound_expression_rule(with_limit(p, other), bindings, depth);
    parsed_expression_limited(p, other, 0, depth);
    match parsed_expression(p, 0, depth) {
        Err(error) => {},
        Ok((p, expression)) => {
            with_bindings_limited(p, other, expression, bindings, bindings.len() as int, depth);
        },
    }
}

pub(crate) proof fn parsed_bound_statement_limited(
    p: Parsing,
    other: int,
    bindings: Seq<Binding>,
    depth: int,
)
    ensures
        limited(
            p,
            parsed_bound_statement(p, bindings, depth),
            other,
            parsed_bound_statement(with_limit(p, other), bindings, depth),
        ),
    decreases room(depth), 25int, 0int,
{
    parsed_bound_statement_rule(p, bindings, depth);
    parsed_bound_statement_rule(with_limit(p, other), bindings, depth);
    parsed_expression_limited(p, other, 0, depth);
    match parsed_expression(p, 0, depth) {
        Err(error) => {},
        Ok((p, expression)) => {
            expect_kind_limited(
                p,
                other,
                TokenKind::Semicolon,
                ExpressionErrorKind::ExpectedSemicolon,
            );
            match expect_kind(
            p,
            TokenKind::Semicolon,
            ExpressionErrorKind::ExpectedSemicolon,
        ) {
                Err(error) => {},
                Ok((p, _)) => {
                    with_bindings_limited(
                        p,
                        other,
                        expression,
                        bindings,
                        bindings.len() as int,
                        depth,
                    );
                },
            }
        },
    }
}

pub(crate) proof fn parsed_mut_limited(
    p: Parsing,
    other: int,
)
    ensures
        limited(
            p,
            parsed_mut(p),
            other,
            parsed_mut(with_limit(p, other)),
        ),
{
    next_reads_limited(p, other, "mut"@);
    match next_reads(p, "mut"@) {
        Err(error) => {},
        Ok((p, false)) => {},
        Ok((p, true)) => {
            take_limited(p, other);
        },
    }
}

pub(crate) proof fn parsed_binding_limited(
    p: Parsing,
    other: int,
    bindings: Seq<Binding>,
    depth: int,
)
    ensures
        limited(
            p,
            parsed_binding(p, bindings, depth),
            other,
            parsed_binding(with_limit(p, other), bindings, depth),
        ),
    decreases room(depth), 30int, 0int,
{
    parsed_binding_rule(p, bindings, depth);
    parsed_binding_rule(with_limit(p, other), bindings, depth);
    take_limited(p, other);
    match take(p) {
        Err(error) => {},
        Ok((p, let_word)) => {
            if bindings.len() >= MAX_INLINE_CONST_BINDINGS {
            } else {
                parsed_mut_limited(p, other);
                match parsed_mut(p) {
                    Err(error) => {},
                    Ok((p, mutable)) => {
                        expect_kind_limited(
                            p,
                            other,
                            TokenKind::Identifier,
                            ExpressionErrorKind::ExpectedIdentifier,
                        );
                        match expect_kind(
                    p,
                    TokenKind::Identifier,
                    ExpressionErrorKind::ExpectedIdentifier,
                ) {
                            Err(error) => {},
                            Ok((p, name)) => {
                                parsed_annotation_limited(p, other);
                                match parsed_annotation(p) {
                                    Err(error) => {},
                                    Ok((p, annotation)) => {
                                        expect_operator_limited(
                                            p,
                                            other,
                                            "="@,
                                            ExpressionErrorKind::ExpectedEquals,
                                        );
                                        match expect_operator(
                            p,
                            "="@,
                            ExpressionErrorKind::ExpectedEquals,
                        ) {
                                            Err(error) => {},
                                            Ok((p, _)) => {
                                                parsed_bound_statement_limited(
                                                    p,
                                                    other,
                                                    bindings,
                                                    depth + 1,
                                                );
                                                match parsed_bound_statement(p, bindings, depth + 1) {
                                                    Err(error) => {},
                                                    Ok((p, value)) => {
                                                        match form_of(p, value, name.span) {
                                                            Err(error) => {},
                                                            Ok(form) => {
                                                                annotated_limited(
                                                                    p,
                                                                    other,
                                                                    form,
                                                                    annotation,
                                                                    name,
                                                                    value,
                                                                );
                                                            },
                                                        }
                                                    },
                                                }
                                            },
                                        }
                                    },
                                }
                            },
                        }
                    },
                }
            }
        },
    }
}

pub(crate) proof fn assigned_form_limited(
    p: Parsing,
    other: int,
    binding: Binding,
    operator: Word,
    name: Word,
    value: ExprId,
)
    ensures
        limited(
            p,
            assigned_form(p, binding, operator, name, value),
            other,
            assigned_form(with_limit(p, other), binding, operator, name, value),
        ),
{
    reveal(assigned_form);
    match form_of(p, value, name.span) {
        Err(error) => {},
        Ok(form) => {
            match assignment_operator(operator.text) {
                None => {
                    annotated_limited(p, other, form, binding.annotation, name, value);
                },
                Some(binary) => {
                    push_node_limited(p, other, binding.form, name.span);
                    match push_node(p, binding.form, name.span) {
                        Err(error) => {},
                        Ok((p, previous)) => {
                            let updated = Form::Binary { operator: binary, left: previous, right: value };
                            push_from_limited(p, other, updated, name.span.start, value);
                            match push_from(p, updated, name.span.start, value) {
                                Err(error) => {},
                                Ok((p, _)) => {
                                    annotated_limited(
                                        p,
                                        other,
                                        updated,
                                        binding.annotation,
                                        name,
                                        value,
                                    );
                                },
                            }
                        },
                    }
                },
            }
        },
    }
}

pub(crate) proof fn parsed_assignment_limited(
    p: Parsing,
    other: int,
    bindings: Seq<Binding>,
    assignments: int,
    depth: int,
)
    ensures
        limited(
            p,
            parsed_assignment(p, bindings, assignments, depth),
            other,
            parsed_assignment(with_limit(p, other), bindings, assignments, depth),
        ),
    decreases room(depth), 30int, 0int,
{
    parsed_assignment_rule(p, bindings, assignments, depth);
    parsed_assignment_rule(with_limit(p, other), bindings, assignments, depth);
    take_limited(p, other);
    match take(p) {
        Err(error) => {},
        Ok((q, first)) => {
            if !is_kind(first, TokenKind::Identifier) {
            } else {
                let name = first->0;
                match binding_place(bindings, name.text, bindings.len() as int) {
                    None => {},
                    Some(place) => {
                        take_limited(q, other);
                        match take(q) {
                            Err(error) => {},
                            Ok((q, second)) => {
                                if !is_kind(second, TokenKind::Operator) || !(is_text(
                        second,
                        "="@,
                    ) || assignment_operator(second->0.text) is Some) {
                                } else {
                                    if assignments >= MAX_INLINE_CONST_ASSIGNMENTS {
                                    } else {
                                        if !bindings[place].mutable {
                                        } else {
                                            parsed_bound_statement_limited(
                                                q,
                                                other,
                                                bindings,
                                                depth + 1,
                                            );
                                            match parsed_bound_statement(q, bindings, depth + 1) {
                                                Err(error) => {},
                                                Ok((q, value)) => {
                                                    assigned_form_limited(
                                                        q,
                                                        other,
                                                        bindings[place],
                                                        second->0,
                                                        name,
                                                        value,
                                                    );
                                                },
                                            }
                                        }
                                    }
                                }
                            },
                        }
                    },
                }
            }
        },
    }
}

pub(crate) proof fn parsed_if_limited(
    p: Parsing,
    other: int,
    word: Word,
    depth: int,
)
    ensures
        limited(
            p,
            parsed_if(p, word, depth),
            other,
            parsed_if(with_limit(p, other), word, depth),
        ),
    decreases room(depth), 20int, 0int,
{
    parsed_if_rule(p, word, depth);
    parsed_if_rule(with_limit(p, other), word, depth);
    if level_refused(depth) {
    } else {
        parsed_expression_limited(p, other, 0, depth + 1);
        match parsed_expression(p, 0, depth + 1) {
            Err(error) => {},
            Ok((p, condition)) => {
                expect_kind_limited(
                    p,
                    other,
                    TokenKind::OpenBrace,
                    ExpressionErrorKind::ExpectedOpenBrace,
                );
                match expect_kind(
                p,
                TokenKind::OpenBrace,
                ExpressionErrorKind::ExpectedOpenBrace,
            ) {
                    Err(error) => {},
                    Ok((p, _)) => {
                        parsed_block_limited(p, other, depth + 1);
                        match parsed_block(p, depth + 1) {
                            Err(error) => {},
                            Ok((p, (then_branch, then_end))) => {
                                parsed_else_limited(p, other, then_branch, then_end, depth);
                                match parsed_else(
                        p,
                        then_branch,
                        then_end,
                        depth,
                    ) {
                                    Err(error) => {},
                                    Ok((p, (else_branch, end))) => {
                                        push_node_limited(
                                            p,
                                            other,
                                            Form::If { condition, then_branch, else_branch },
                                            Span { start: word.span.start, end },
                                        );
                                    },
                                }
                            },
                        }
                    },
                }
            },
        }
    }
}

pub(crate) proof fn parsed_else_limited(
    p: Parsing,
    other: int,
    then_branch: ExprId,
    then_end: usize,
    depth: int,
)
    ensures
        limited(
            p,
            parsed_else(p, then_branch, then_end, depth),
            other,
            parsed_else(with_limit(p, other), then_branch, then_end, depth),
        ),
    decreases room(depth), 10int, 0int,
{
    parsed_else_rule(p, then_branch, then_end, depth);
    parsed_else_rule(with_limit(p, other), then_branch, then_end, depth);
    if level_refused(depth) {
    } else {
        next_reads_limited(p, other, "else"@);
        match next_reads(p, "else"@) {
            Err(error) => {},
            Ok((p, false)) => {
                if !unit_form(p.nodes, then_branch, depth + 1) {
                } else {
                    push_node_limited(
                        p,
                        other,
                        Form::Unit,
                        Span { start: then_end, end: then_end },
                    );
                }
            },
            Ok((p, true)) => {
                take_limited(p, other);
                match take(p) {
                    Err(error) => {},
                    Ok((p, _)) => {
                        next_reads_limited(p, other, "if"@);
                        match next_reads(p, "if"@) {
                            Err(error) => {},
                            Ok((p, true)) => {
                                take_limited(p, other);
                                match take(p) {
                                    Err(error) => {},
                                    Ok((p, nested)) => {
                                        parsed_if_limited(p, other, nested->0, depth + 1);
                                    },
                                }
                            },
                            Ok((p, false)) => {
                                expect_kind_limited(
                                    p,
                                    other,
                                    TokenKind::OpenBrace,
                                    ExpressionErrorKind::ExpectedOpenBrace,
                                );
                                match expect_kind(
                        p,
                        TokenKind::OpenBrace,
                        ExpressionErrorKind::ExpectedOpenBrace,
                    ) {
                                    Err(error) => {},
                                    Ok((p, _)) => {
                                        parsed_block_limited(p, other, depth + 1);
                                    },
                                }
                            },
                        }
                    },
                }
            },
        }
    }
}

pub(crate) proof fn parsed_match_limited(
    p: Parsing,
    other: int,
    word: Word,
    depth: int,
)
    ensures
        limited(
            p,
            parsed_match(p, word, depth),
            other,
            parsed_match(with_limit(p, other), word, depth),
        ),
    decreases room(depth), 100int, 0int,
{
    parsed_match_rule(p, word, depth);
    parsed_match_rule(with_limit(p, other), word, depth);
    if level_refused(depth) {
    } else {
        parsed_expression_limited(p, other, 0, depth + 1);
        match parsed_expression(p, 0, depth + 1) {
            Err(error) => {},
            Ok((p, scrutinee)) => {
                expect_kind_limited(
                    p,
                    other,
                    TokenKind::OpenBrace,
                    ExpressionErrorKind::ExpectedOpenBrace,
                );
                match expect_kind(
                p,
                TokenKind::OpenBrace,
                ExpressionErrorKind::ExpectedOpenBrace,
            ) {
                    Err(error) => {},
                    Ok((p, _)) => {
                        parsed_arms_limited(p, other, seq![], scrutinee, word, depth);
                        match parsed_arms(p, seq![], scrutinee, word, depth) {
                            Err(error) => {},
                            Ok((p, arms)) => {
                                decision_limited(
                                    p,
                                    other,
                                    scrutinee,
                                    arms.arms,
                                    arms.arms.len() as int,
                                    arms.otherwise,
                                    Span { start: word.span.start, end: arms.close.span.end },
                                    word.span,
                                );
                            },
                        }
                    },
                }
            },
        }
    }
}

pub(crate) proof fn parsed_arm_start_limited(
    p: Parsing,
    other: int,
    arm_count: int,
    depth: int,
)
    ensures
        limited(
            p,
            parsed_arm_start(p, arm_count, depth),
            other,
            parsed_arm_start(with_limit(p, other), arm_count, depth),
        ),
{
    reveal(parsed_arm_start);
    peek_limited(p, other);
    match peek(p) {
        Err(error) => {},
        Ok(q) => {
            if is_kind(front(q), TokenKind::Identifier) && is_text(front(q), "_"@) {
                take_limited(q, other);
                match take(q) {
                    Err(error) => {},
                    Ok((q, _)) => {
                        next_reads_limited(q, other, "if"@);
                    },
                }
            } else {
                if arm_count >= MAX_MATCH_PATTERNS {
                } else {
                    parsed_alternatives_list_limited(q, other, seq![], depth);
                }
            }
        },
    }
}

pub(crate) proof fn parsed_arm_end_limited(
    p: Parsing,
    other: int,
    arms: Seq<Arm>,
    block: bool,
)
    ensures
        limited(
            p,
            parsed_arm_end(p, arms, block),
            other,
            parsed_arm_end(with_limit(p, other), arms, block),
        ),
{
    reveal(parsed_arm_end);
    next_is_limited(p, other, TokenKind::Comma);
    match next_is(p, TokenKind::Comma) {
        Err(error) => {},
        Ok((p, comma)) => {
            take_limited(p, other);
            match (if comma {
            take(p)
        } else {
            Ok((p, None))
        }) {
                Err(error) => {},
                Ok((p, _)) => {
                    next_is_limited(p, other, TokenKind::CloseBrace);
                    match next_is(p, TokenKind::CloseBrace) {
                        Err(error) => {},
                        Ok((p, true)) => {
                            if !arms_cover(p.nodes, arms) {
                            } else {
                                take_limited(p, other);
                            }
                        },
                        Ok((p, false)) => {},
                    }
                },
            }
        },
    }
}

pub(crate) proof fn parsed_arms_limited(
    p: Parsing,
    other: int,
    arms: Seq<Arm>,
    scrutinee: ExprId,
    word: Word,
    depth: int,
)
    ensures
        limited(
            p,
            parsed_arms(p, arms, scrutinee, word, depth),
            other,
            parsed_arms(with_limit(p, other), arms, scrutinee, word, depth),
        ),
    decreases room(depth), 90int, remaining(p),
{
    parsed_arms_rule(p, arms, scrutinee, word, depth);
    parsed_arms_rule(with_limit(p, other), arms, scrutinee, word, depth);
    parsed_arm_start_limited(p, other, arms.len() as int, depth);
    match parsed_arm_start(p, arms.len() as int, depth) {
        Err(error) => {},
        Ok((q, None)) => {
            parsed_fallback_limited(q, other, arms, depth);
        },
        Ok((q, Some(alternatives))) => {
            parsed_arm_limited(q, other, alternatives, scrutinee, word, depth);
            match parsed_arm(q, alternatives, scrutinee, word, depth) {
                Err(error) => {},
                Ok((q, (arm, block))) => {
                    parsed_arm_end_limited(q, other, arms.push(arm), block);
                    match parsed_arm_end(q, arms.push(arm), block) {
                        Err(error) => {},
                        Ok((q, Some(all))) => {},
                        Ok((q, None)) => {
                            if advances(p, q) {
                                parsed_arms_limited(
                                    q,
                                    other,
                                    arms.push(arm),
                                    scrutinee,
                                    word,
                                    depth,
                                );
                            }
                        },
                    }
                },
            }
        },
    }
}

pub(crate) proof fn parsed_fallback_limited(
    p: Parsing,
    other: int,
    arms: Seq<Arm>,
    depth: int,
)
    ensures
        limited(
            p,
            parsed_fallback(p, arms, depth),
            other,
            parsed_fallback(with_limit(p, other), arms, depth),
        ),
    decreases room(depth), 85int, 0int,
{
    parsed_fallback_rule(p, arms, depth);
    parsed_fallback_rule(with_limit(p, other), arms, depth);
    expect_kind_limited(p, other, TokenKind::FatArrow, ExpressionErrorKind::ExpectedFatArrow);
    match expect_kind(p, TokenKind::FatArrow, ExpressionErrorKind::ExpectedFatArrow) {
        Err(error) => {},
        Ok((p, _)) => {
            parsed_expression_limited(p, other, 0, depth + 1);
            match parsed_expression(p, 0, depth + 1) {
                Err(error) => {},
                Ok((p, otherwise)) => {
                    next_is_limited(p, other, TokenKind::Comma);
                    match next_is(p, TokenKind::Comma) {
                        Err(error) => {},
                        Ok((p, comma)) => {
                            take_limited(p, other);
                            match (if comma {
                    take(p)
                } else {
                    Ok((p, None))
                }) {
                                Err(error) => {},
                                Ok((p, _)) => {
                                    expect_kind_limited(
                                        p,
                                        other,
                                        TokenKind::CloseBrace,
                                        ExpressionErrorKind::ExpectedCloseBrace,
                                    );
                                },
                            }
                        },
                    }
                },
            }
        },
    }
}

pub(crate) proof fn parsed_alternatives_list_limited(
    p: Parsing,
    other: int,
    found: Seq<Pattern>,
    depth: int,
)
    ensures
        limited(
            p,
            parsed_alternatives_list(p, found, depth),
            other,
            parsed_alternatives_list(with_limit(p, other), found, depth),
        ),
    decreases remaining(p),
{
    reveal(parsed_alternatives_list);
    parsed_alternatives_limited(p, other, found, None, depth + 1);
    match parsed_alternatives(p, found, None, depth + 1) {
        Err(error) => {},
        Ok((q, found)) => {
            next_operator_limited(q, other, "|"@);
            match next_operator(q, "|"@) {
                Err(error) => {},
                Ok((q, false)) => {},
                Ok((q, true)) => {
                    take_limited(q, other);
                    match take(q) {
                        Err(error) => {},
                        Ok((q, _)) => {
                            if advances(p, q) {
                                parsed_alternatives_list_limited(q, other, found, depth);
                            }
                        },
                    }
                },
            }
        },
    }
}

pub(crate) proof fn parsed_guard_limited(
    p: Parsing,
    other: int,
    depth: int,
)
    ensures
        limited(
            p,
            parsed_guard(p, depth),
            other,
            parsed_guard(with_limit(p, other), depth),
        ),
    decreases room(depth), 84int, 0int,
{
    parsed_guard_rule(p, depth);
    parsed_guard_rule(with_limit(p, other), depth);
    next_reads_limited(p, other, "if"@);
    match next_reads(p, "if"@) {
        Err(error) => {},
        Ok((p, false)) => {},
        Ok((p, true)) => {
            take_limited(p, other);
            match take(p) {
                Err(error) => {},
                Ok((p, _)) => {
                    parsed_expression_limited(p, other, 0, depth + 1);
                },
            }
        },
    }
}

pub(crate) proof fn arm_bound_limited(
    p: Parsing,
    other: int,
    name: Option<Seq<char>>,
    guard: Option<ExprId>,
    branch: ExprId,
    scrutinee: ExprId,
    word: Word,
    depth: int,
)
    ensures
        limited_state(
            p,
            arm_bound(p, name, guard, branch, scrutinee, word, depth),
            other,
            arm_bound(with_limit(p, other), name, guard, branch, scrutinee, word, depth),
        ),
{
    reveal(arm_bound);
    match name {
        None => {},
        Some(name) => {
            match form_of(p, scrutinee, word.span) {
                Err(error) => {},
                Ok(form) => {
                    substituted_all_keeps_length(
                        p.length,
                        p.nodes,
                        seq![guard, Some(branch)],
                        2,
                        name,
                        form,
                        depth + 1,
                    );
                },
            }
        },
    }
}

pub(crate) proof fn parsed_arm_limited(
    p: Parsing,
    other: int,
    alternatives: Seq<Pattern>,
    scrutinee: ExprId,
    word: Word,
    depth: int,
)
    ensures
        limited(
            p,
            parsed_arm(p, alternatives, scrutinee, word, depth),
            other,
            parsed_arm(with_limit(p, other), alternatives, scrutinee, word, depth),
        ),
    decreases room(depth), 86int, 0int,
{
    parsed_arm_rule(p, alternatives, scrutinee, word, depth);
    parsed_arm_rule(with_limit(p, other), alternatives, scrutinee, word, depth);
    reveal(arm_binding);
    match arm_binding(p, alternatives) {
        Err(error) => {},
        Ok(name) => {
            parsed_guard_limited(p, other, depth);
            match parsed_guard(p, depth) {
                Err(error) => {},
                Ok((p, guard)) => {
                    expect_kind_limited(
                        p,
                        other,
                        TokenKind::FatArrow,
                        ExpressionErrorKind::ExpectedFatArrow,
                    );
                    match expect_kind(
                p,
                TokenKind::FatArrow,
                ExpressionErrorKind::ExpectedFatArrow,
            ) {
                        Err(error) => {},
                        Ok((p, _)) => {
                            next_is_limited(p, other, TokenKind::OpenBrace);
                            match next_is(p, TokenKind::OpenBrace) {
                                Err(error) => {},
                                Ok((p, block)) => {
                                    parsed_expression_limited(p, other, 0, depth + 1);
                                    match parsed_expression(p, 0, depth + 1) {
                                        Err(error) => {},
                                        Ok((p, branch)) => {
                                            arm_bound_limited(
                                                p,
                                                other,
                                                name,
                                                guard,
                                                branch,
                                                scrutinee,
                                                word,
                                                depth,
                                            );
                                        },
                                    }
                                },
                            }
                        },
                    }
                },
            }
        },
    }
}

pub(crate) proof fn parsed_break_operand_limited(
    p: Parsing,
    other: int,
    depth: int,
)
    ensures
        limited(
            p,
            parsed_break_operand(p, depth),
            other,
            parsed_break_operand(with_limit(p, other), depth),
        ),
    decreases room(depth), 30int, 0int,
{
    parsed_break_operand_rule(p, depth);
    parsed_break_operand_rule(with_limit(p, other), depth);
    next_is_limited(p, other, TokenKind::Semicolon);
    match next_is(p, TokenKind::Semicolon) {
        Err(error) => {},
        Ok((p, true)) => {
            take_limited(p, other);
            match take(p) {
                Err(error) => {},
                Ok((p, semicolon)) => {
                    push_unit_at_limited(p, other, semicolon->0);
                },
            }
        },
        Ok((p, false)) => {
            parsed_expression_limited(p, other, 0, depth + 1);
            match parsed_expression(p, 0, depth + 1) {
                Err(error) => {},
                Ok((p, operand)) => {
                    expect_kind_limited(
                        p,
                        other,
                        TokenKind::Semicolon,
                        ExpressionErrorKind::TrailingToken,
                    );
                },
            }
        },
    }
}

pub(crate) proof fn parsed_branch_operand_limited(
    p: Parsing,
    other: int,
    depth: int,
)
    ensures
        limited(
            p,
            parsed_branch_operand(p, depth),
            other,
            parsed_branch_operand(with_limit(p, other), depth),
        ),
    decreases room(depth), 30int, 0int,
{
    parsed_branch_operand_rule(p, depth);
    parsed_branch_operand_rule(with_limit(p, other), depth);
    next_is_limited(p, other, TokenKind::Semicolon);
    match next_is(p, TokenKind::Semicolon) {
        Err(error) => {},
        Ok((p, true)) => {
            take_limited(p, other);
            match take(p) {
                Err(error) => {},
                Ok((p, semicolon)) => {
                    push_unit_at_limited(p, other, semicolon->0);
                },
            }
        },
        Ok((p, false)) => {
            parsed_expression_limited(p, other, 0, depth + 1);
            match parsed_expression(p, 0, depth + 1) {
                Err(error) => {},
                Ok((p, operand)) => {
                    next_is_limited(p, other, TokenKind::CloseBrace);
                    match next_is(p, TokenKind::CloseBrace) {
                        Err(error) => {},
                        Ok((p, true)) => {},
                        Ok((p, false)) => {
                            expect_kind_limited(
                                p,
                                other,
                                TokenKind::Semicolon,
                                ExpressionErrorKind::TrailingToken,
                            );
                        },
                    }
                },
            }
        },
    }
}

pub(crate) proof fn parsed_condition_operand_limited(
    p: Parsing,
    other: int,
    depth: int,
)
    ensures
        limited(
            p,
            parsed_condition_operand(p, depth),
            other,
            parsed_condition_operand(with_limit(p, other), depth),
        ),
    decreases room(depth), 30int, 0int,
{
    parsed_condition_operand_rule(p, depth);
    parsed_condition_operand_rule(with_limit(p, other), depth);
    next_is_limited(p, other, TokenKind::OpenBrace);
    match next_is(p, TokenKind::OpenBrace) {
        Err(error) => {},
        Ok((p, true)) => {
            push_unit_at_limited(p, other, front(p)->0);
        },
        Ok((p, false)) => {
            parsed_expression_limited(p, other, 0, depth + 1);
        },
    }
}

pub(crate) proof fn parsed_loop_limited(
    p: Parsing,
    other: int,
    word: Word,
    label: Option<Word>,
    depth: int,
)
    ensures
        limited(
            p,
            parsed_loop(p, word, label, depth),
            other,
            parsed_loop(with_limit(p, other), word, label, depth),
        ),
    decreases room(depth), 100int, 0int,
{
    parsed_loop_rule(p, word, label, depth);
    parsed_loop_rule(with_limit(p, other), word, label, depth);
    if level_refused(depth) {
    } else {
        expect_kind_limited(
            p,
            other,
            TokenKind::OpenBrace,
            ExpressionErrorKind::ExpectedOpenBrace,
        );
        match expect_kind(p, TokenKind::OpenBrace, ExpressionErrorKind::ExpectedOpenBrace) {
            Err(error) => {},
            Ok((p, _)) => {
                peek_limited(p, other);
                match peek(p) {
                    Err(error) => {},
                    Ok(p) => {
                        if is_kind(front(p), TokenKind::Lifetime) {
                            parsed_nested_loop_limited(p, other, word, label, depth + 1);
                        } else {
                            if is_text(front(p), "while"@) {
                                take_limited(p, other);
                                match take(p) {
                                    Err(error) => {},
                                    Ok((p, _)) => {
                                        parsed_while_limited(
                                            p,
                                            other,
                                            word,
                                            label,
                                            None,
                                            depth + 1,
                                        );
                                    },
                                }
                            } else {
                                take_limited(p, other);
                                match take(p) {
                                    Err(error) => {},
                                    Ok((p, control)) => {
                                        parsed_loop_branches_limited(
                                            p,
                                            other,
                                            control,
                                            seq![],
                                            seq![],
                                            word,
                                            label,
                                            depth,
                                        );
                                        match parsed_loop_branches(
                            p,
                            control,
                            seq![],
                            seq![],
                            word,
                            label,
                            depth,
                        ) {
                                            Err(error) => {},
                                            Ok((p, exits)) => {
                                                let span = Span {
                                    start: loop_start(word, label),
                                    end: exits.close.span.end,
                                };
                                                if exits.conditions.len() == 0 {
                                                    push_node_limited(
                                                        p,
                                                        other,
                                                        Form::LoopBreak { operand: exits.otherwise },
                                                        span,
                                                    );
                                                } else {
                                                    loop_exits_limited(
                                                        p,
                                                        other,
                                                        exits.conditions,
                                                        exits.branches,
                                                        exits.conditions.len() as int,
                                                        exits.otherwise,
                                                        span,
                                                    );
                                                }
                                            },
                                        }
                                    },
                                }
                            }
                        }
                    },
                }
            },
        }
    }
}

pub(crate) proof fn parsed_exit_limited(
    p: Parsing,
    other: int,
    current: Option<Word>,
    enclosing: Option<Word>,
    target: Option<ValueLoopControlTarget>,
    depth: int,
)
    ensures
        limited(
            p,
            parsed_exit(p, current, enclosing, target, depth),
            other,
            parsed_exit(with_limit(p, other), current, enclosing, target, depth),
        ),
    decreases room(depth), 70int, 0int,
{
    parsed_exit_rule(p, current, enclosing, target, depth);
    parsed_exit_rule(with_limit(p, other), current, enclosing, target, depth);
    parsed_expression_limited(p, other, 0, depth + 1);
    match parsed_expression(p, 0, depth + 1) {
        Err(error) => {},
        Ok((p, condition)) => {
            expect_kind_limited(
                p,
                other,
                TokenKind::OpenBrace,
                ExpressionErrorKind::ExpectedOpenBrace,
            );
            match expect_kind(
            p,
            TokenKind::OpenBrace,
            ExpressionErrorKind::ExpectedOpenBrace,
        ) {
                Err(error) => {},
                Ok((p, _)) => {
                    parsed_braced_break_limited(p, other, current, enclosing, target, depth);
                },
            }
        },
    }
}

pub(crate) proof fn parsed_braced_break_limited(
    p: Parsing,
    other: int,
    current: Option<Word>,
    enclosing: Option<Word>,
    target: Option<ValueLoopControlTarget>,
    depth: int,
)
    ensures
        limited(
            p,
            parsed_braced_break(p, current, enclosing, target, depth),
            other,
            parsed_braced_break(with_limit(p, other), current, enclosing, target, depth),
        ),
    decreases room(depth), 65int, 0int,
{
    parsed_braced_break_rule(p, current, enclosing, target, depth);
    parsed_braced_break_rule(with_limit(p, other), current, enclosing, target, depth);
    expect_text_limited(p, other, "break"@, ExpressionErrorKind::ExpectedExpression);
    match expect_text(p, "break"@, ExpressionErrorKind::ExpectedExpression) {
        Err(error) => {},
        Ok((p, word)) => {
            parsed_break_target_limited(p, other, current, enclosing);
            match parsed_break_target(p, current, enclosing) {
                Err(error) => {},
                Ok((p, actual)) => {
                    if target is Some && target != Some(actual) {
                    } else {
                        parsed_branch_operand_limited(p, other, depth + 1);
                        match parsed_branch_operand(p, depth + 1) {
                            Err(error) => {},
                            Ok((p, operand)) => {
                                expect_kind_limited(
                                    p,
                                    other,
                                    TokenKind::CloseBrace,
                                    ExpressionErrorKind::ExpectedCloseBrace,
                                );
                            },
                        }
                    }
                },
            }
        },
    }
}

pub(crate) proof fn parsed_loop_branches_limited(
    p: Parsing,
    other: int,
    control: Option<Word>,
    conditions: Seq<ExprId>,
    branches: Seq<ExprId>,
    word: Word,
    label: Option<Word>,
    depth: int,
)
    ensures
        limited(
            p,
            parsed_loop_branches(p, control, conditions, branches, word, label, depth),
            other,
            parsed_loop_branches(with_limit(p, other), control, conditions, branches, word, label, depth),
        ),
    decreases room(depth), 90int, remaining(p),
{
    parsed_loop_branches_rule(p, control, conditions, branches, word, label, depth);
    parsed_loop_branches_rule(
        with_limit(p, other),
        control,
        conditions,
        branches,
        word,
        label,
        depth,
    );
    if is_text(control, "if"@) {
        if conditions.len() >= MAX_LOOP_BREAK_BRANCHES {
        } else {
            parsed_exit_limited(p, other, label, None, None, depth);
            match parsed_exit(p, label, None, None, depth) {
                Err(error) => {},
                Ok((q, (condition, branch))) => {
                    take_limited(q, other);
                    match take(q) {
                        Err(error) => {},
                        Ok((q, next)) => {
                            let conditions = conditions.push(condition);
                            let branches = branches.push(branch);
                            if !is_text(next, "else"@) {
                                if advances(p, q) {
                                    parsed_loop_branches_limited(
                                        q,
                                        other,
                                        next,
                                        conditions,
                                        branches,
                                        word,
                                        label,
                                        depth,
                                    );
                                }
                            } else {
                                take_limited(q, other);
                                match take(q) {
                                    Err(error) => {},
                                    Ok((q, alternative)) => {
                                        if is_text(alternative, "if"@) {
                                            if advances(p, q) {
                                                parsed_loop_branches_limited(
                                                    q,
                                                    other,
                                                    alternative,
                                                    conditions,
                                                    branches,
                                                    word,
                                                    label,
                                                    depth,
                                                );
                                            }
                                        } else {
                                            if !is_kind(alternative, TokenKind::OpenBrace) {
                                            } else {
                                                parsed_braced_break_limited(
                                                    q,
                                                    other,
                                                    label,
                                                    None,
                                                    None,
                                                    depth,
                                                );
                                                match parsed_braced_break(q, label, None, None, depth) {
                                                    Err(error) => {},
                                                    Ok((q, otherwise)) => {
                                                        closed_loop_limited(
                                                            q,
                                                            other,
                                                            conditions,
                                                            branches,
                                                            otherwise,
                                                        );
                                                    },
                                                }
                                            }
                                        }
                                    },
                                }
                            }
                        },
                    }
                },
            }
        }
    } else {
        if !is_text(control, "break"@) {
        } else {
            parsed_break_target_limited(p, other, label, None);
            match parsed_break_target(p, label, None) {
                Err(error) => {},
                Ok((q, _)) => {
                    parsed_break_operand_limited(q, other, depth + 1);
                    match parsed_break_operand(q, depth + 1) {
                        Err(error) => {},
                        Ok((q, operand)) => {
                            next_reads_limited(q, other, "break"@);
                            match next_reads(q, "break"@) {
                                Err(error) => {},
                                Ok((q, false)) => {
                                    closed_loop_limited(q, other, conditions, branches, operand);
                                },
                                Ok((q, true)) => {
                                    if conditions.len() >= MAX_LOOP_BREAK_BRANCHES {
                                    } else {
                                        push_node_limited(
                                            q,
                                            other,
                                            Form::Bool(true),
                                            control->0.span,
                                        );
                                        match push_node(q, Form::Bool(true), control->0.span) {
                                            Err(error) => {},
                                            Ok((q, condition)) => {
                                                take_limited(q, other);
                                                match take(q) {
                                                    Err(error) => {},
                                                    Ok((q, next)) => {
                                                        if advances(p, q) {
                                                            parsed_loop_branches_limited(
                                                                q,
                                                                other,
                                                                next,
                                                                conditions.push(condition),
                                                                branches.push(operand),
                                                                word,
                                                                label,
                                                                depth,
                                                            );
                                                        }
                                                    },
                                                }
                                            },
                                        }
                                    }
                                },
                            }
                        },
                    }
                },
            }
        }
    }
}

pub(crate) proof fn closed_loop_limited(
    p: Parsing,
    other: int,
    conditions: Seq<ExprId>,
    branches: Seq<ExprId>,
    otherwise: ExprId,
)
    ensures
        limited(
            p,
            closed_loop(p, conditions, branches, otherwise),
            other,
            closed_loop(with_limit(p, other), conditions, branches, otherwise),
        ),
{
    expect_kind_limited(p, other, TokenKind::CloseBrace, ExpressionErrorKind::ExpectedCloseBrace);
}

pub(crate) proof fn parsed_nested_loop_limited(
    p: Parsing,
    other: int,
    word: Word,
    label: Option<Word>,
    depth: int,
)
    ensures
        limited(
            p,
            parsed_nested_loop(p, word, label, depth),
            other,
            parsed_nested_loop(with_limit(p, other), word, label, depth),
        ),
    decreases room(depth), 100int, 0int,
{
    parsed_nested_loop_rule(p, word, label, depth);
    parsed_nested_loop_rule(with_limit(p, other), word, label, depth);
    if level_refused(depth) {
    } else {
        take_limited(p, other);
        match take(p) {
            Err(error) => {},
            Ok((p, None)) => {},
            Ok((p, Some(inner))) => {
                expect_kind_limited(
                    p,
                    other,
                    TokenKind::Colon,
                    ExpressionErrorKind::ExpectedColon,
                );
                match expect_kind(
                p,
                TokenKind::Colon,
                ExpressionErrorKind::ExpectedColon,
            ) {
                    Err(error) => {},
                    Ok((p, _)) => {
                        take_limited(p, other);
                        match take(p) {
                            Err(error) => {},
                            Ok((p, keyword)) => {
                                if is_text(keyword, "while"@) {
                                    parsed_while_limited(
                                        p,
                                        other,
                                        word,
                                        label,
                                        Some(inner),
                                        depth + 1,
                                    );
                                } else {
                                    if !is_text(keyword, "loop"@) {
                                    } else {
                                        expect_kind_limited(
                                            p,
                                            other,
                                            TokenKind::OpenBrace,
                                            ExpressionErrorKind::ExpectedOpenBrace,
                                        );
                                        match expect_kind(
                            p,
                            TokenKind::OpenBrace,
                            ExpressionErrorKind::ExpectedOpenBrace,
                        ) {
                                            Err(error) => {},
                                            Ok((p, _)) => {
                                                take_limited(p, other);
                                                match take(p) {
                                                    Err(error) => {},
                                                    Ok((p, control)) => {
                                                        parsed_inner_branches_limited(
                                                            p,
                                                            other,
                                                            control,
                                                            seq![],
                                                            seq![],
                                                            inner,
                                                            label,
                                                            depth,
                                                        );
                                                        match parsed_inner_branches(
                                    p,
                                    control,
                                    seq![],
                                    seq![],
                                    inner,
                                    label,
                                    depth,
                                ) {
                                                            Err(error) => {},
                                                            Ok((p, exits)) => {
                                                                parsed_outer_exit_limited(
                                                                    p,
                                                                    other,
                                                                    exits,
                                                                    word,
                                                                    label,
                                                                    depth,
                                                                );
                                                            },
                                                        }
                                                    },
                                                }
                                            },
                                        }
                                    }
                                }
                            },
                        }
                    },
                }
            },
        }
    }
}

pub(crate) proof fn parsed_inner_branches_limited(
    p: Parsing,
    other: int,
    control: Option<Word>,
    conditions: Seq<ExprId>,
    branches: Seq<ExprId>,
    inner: Word,
    label: Option<Word>,
    depth: int,
)
    ensures
        limited(
            p,
            parsed_inner_branches(p, control, conditions, branches, inner, label, depth),
            other,
            parsed_inner_branches(with_limit(p, other), control, conditions, branches, inner, label, depth),
        ),
    decreases room(depth), 90int, remaining(p),
{
    parsed_inner_branches_rule(p, control, conditions, branches, inner, label, depth);
    parsed_inner_branches_rule(
        with_limit(p, other),
        control,
        conditions,
        branches,
        inner,
        label,
        depth,
    );
    if is_text(control, "if"@) {
        if conditions.len() >= MAX_LOOP_BREAK_BRANCHES {
        } else {
            parsed_exit_limited(
                p,
                other,
                Some(inner),
                label,
                Some(ValueLoopControlTarget::Enclosing),
                depth,
            );
            match parsed_exit(
                p,
                Some(inner),
                label,
                Some(ValueLoopControlTarget::Enclosing),
                depth,
            ) {
                Err(error) => {},
                Ok((q, (condition, branch))) => {
                    take_limited(q, other);
                    match take(q) {
                        Err(error) => {},
                        Ok((q, next)) => {
                            let conditions = conditions.push(condition);
                            let branches = branches.push(branch);
                            if !is_text(next, "else"@) {
                                if advances(p, q) {
                                    parsed_inner_branches_limited(
                                        q,
                                        other,
                                        next,
                                        conditions,
                                        branches,
                                        inner,
                                        label,
                                        depth,
                                    );
                                }
                            } else {
                                take_limited(q, other);
                                match take(q) {
                                    Err(error) => {},
                                    Ok((q, alternative)) => {
                                        if is_text(alternative, "if"@) {
                                            if advances(p, q) {
                                                parsed_inner_branches_limited(
                                                    q,
                                                    other,
                                                    alternative,
                                                    conditions,
                                                    branches,
                                                    inner,
                                                    label,
                                                    depth,
                                                );
                                            }
                                        } else {
                                            if !is_kind(alternative, TokenKind::OpenBrace) {
                                            } else {
                                                parsed_braced_break_limited(
                                                    q,
                                                    other,
                                                    Some(inner),
                                                    label,
                                                    Some(ValueLoopControlTarget::Current),
                                                    depth,
                                                );
                                                match parsed_braced_break(
                                        q,
                                        Some(inner),
                                        label,
                                        Some(ValueLoopControlTarget::Current),
                                        depth,
                                    ) {
                                                    Err(error) => {},
                                                    Ok((q, operand)) => {
                                                        expect_kind_limited(
                                                            q,
                                                            other,
                                                            TokenKind::CloseBrace,
                                                            ExpressionErrorKind::ExpectedCloseBrace,
                                                        );
                                                    },
                                                }
                                            }
                                        }
                                    },
                                }
                            }
                        },
                    }
                },
            }
        }
    } else {
        if !is_text(control, "break"@) {
        } else {
            expect_break_target_limited(
                p,
                other,
                Some(inner),
                label,
                ValueLoopControlTarget::Current,
                control,
            );
            match expect_break_target(
            p,
            Some(inner),
            label,
            ValueLoopControlTarget::Current,
            control,
        ) {
                Err(error) => {},
                Ok(q) => {
                    parsed_break_operand_limited(q, other, depth + 1);
                    match parsed_break_operand(q, depth + 1) {
                        Err(error) => {},
                        Ok((q, operand)) => {
                            expect_kind_limited(
                                q,
                                other,
                                TokenKind::CloseBrace,
                                ExpressionErrorKind::ExpectedCloseBrace,
                            );
                        },
                    }
                },
            }
        }
    }
}

pub(crate) proof fn parsed_last_exit_limited(
    p: Parsing,
    other: int,
    label: Option<Word>,
    depth: int,
)
    ensures
        limited(
            p,
            parsed_last_exit(p, label, depth),
            other,
            parsed_last_exit(with_limit(p, other), label, depth),
        ),
    decreases room(depth), 70int, 0int,
{
    parsed_last_exit_rule(p, label, depth);
    parsed_last_exit_rule(with_limit(p, other), label, depth);
    expect_text_limited(p, other, "break"@, ExpressionErrorKind::ExpectedExpression);
    match expect_text(p, "break"@, ExpressionErrorKind::ExpectedExpression) {
        Err(error) => {},
        Ok((p, outer_break)) => {
            expect_break_target_limited(
                p,
                other,
                label,
                None,
                ValueLoopControlTarget::Current,
                Some(outer_break),
            );
            match expect_break_target(
            p,
            label,
            None,
            ValueLoopControlTarget::Current,
            Some(outer_break),
        ) {
                Err(error) => {},
                Ok(p) => {
                    parsed_break_operand_limited(p, other, depth + 1);
                    match parsed_break_operand(p, depth + 1) {
                        Err(error) => {},
                        Ok((p, operand)) => {
                            expect_kind_limited(
                                p,
                                other,
                                TokenKind::CloseBrace,
                                ExpressionErrorKind::ExpectedCloseBrace,
                            );
                        },
                    }
                },
            }
        },
    }
}

pub(crate) proof fn parsed_outer_exit_limited(
    p: Parsing,
    other: int,
    exits: InnerExits,
    word: Word,
    label: Option<Word>,
    depth: int,
)
    ensures
        limited(
            p,
            parsed_outer_exit(p, exits, word, label, depth),
            other,
            parsed_outer_exit(with_limit(p, other), exits, word, label, depth),
        ),
    decreases room(depth), 80int, 0int,
{
    parsed_outer_exit_rule(p, exits, word, label, depth);
    parsed_outer_exit_rule(with_limit(p, other), exits, word, label, depth);
    expect_kind_limited(p, other, TokenKind::Semicolon, ExpressionErrorKind::TrailingToken);
    match expect_kind(p, TokenKind::Semicolon, ExpressionErrorKind::TrailingToken) {
        Err(error) => {},
        Ok((p, _)) => {
            parsed_last_exit_limited(p, other, label, depth);
            match parsed_last_exit(p, label, depth) {
                Err(error) => {},
                Ok((p, (fallback, close))) => {
                    let span = Span { start: loop_start(word, label), end: close.span.end };
                    push_node_limited(
                        p,
                        other,
                        Form::Sequence { first: exits.operand, then: fallback },
                        span,
                    );
                    match push_node(
                    p,
                    Form::Sequence { first: exits.operand, then: fallback },
                    span,
                ) {
                        Err(error) => {},
                        Ok((p, otherwise)) => {
                            loop_exits_limited(
                                p,
                                other,
                                exits.conditions,
                                exits.branches,
                                exits.conditions.len() as int,
                                otherwise,
                                span,
                            );
                        },
                    }
                },
            }
        },
    }
}

pub(crate) proof fn parsed_while_limited(
    p: Parsing,
    other: int,
    word: Word,
    label: Option<Word>,
    inner: Option<Word>,
    depth: int,
)
    ensures
        limited(
            p,
            parsed_while(p, word, label, inner, depth),
            other,
            parsed_while(with_limit(p, other), word, label, inner, depth),
        ),
    decreases room(depth), 100int, 0int,
{
    parsed_while_rule(p, word, label, inner, depth);
    parsed_while_rule(with_limit(p, other), word, label, inner, depth);
    if level_refused(depth) {
    } else {
        expect_text_limited(p, other, "break"@, ExpressionErrorKind::ExpectedExpression);
        match expect_text(p, "break"@, ExpressionErrorKind::ExpectedExpression) {
            Err(error) => {},
            Ok((p, break_word)) => {
                parsed_break_target_limited(p, other, inner, label);
                match parsed_break_target(p, inner, label) {
                    Err(error) => {},
                    Ok((p, target)) => {
                        parsed_condition_operand_limited(p, other, depth + 1);
                        match parsed_condition_operand(p, depth + 1) {
                            Err(error) => {},
                            Ok((p, operand)) => {
                                if target == ValueLoopControlTarget::Current && !unit_form(
                        p.nodes,
                        operand,
                        depth + 1,
                    ) {
                                } else {
                                    expect_kind_limited(
                                        p,
                                        other,
                                        TokenKind::OpenBrace,
                                        ExpressionErrorKind::ExpectedOpenBrace,
                                    );
                                    match expect_kind(
                            p,
                            TokenKind::OpenBrace,
                            ExpressionErrorKind::ExpectedOpenBrace,
                        ) {
                                        Err(error) => {},
                                        Ok((p, _)) => {
                                            skipped_body_limited(p, other, 1);
                                            match skipped_body(p, 1) {
                                                Err(error) => {},
                                                Ok(p) => {
                                                    if target == ValueLoopControlTarget::Enclosing {
                                                        expect_kind_limited(
                                                            p,
                                                            other,
                                                            TokenKind::CloseBrace,
                                                            ExpressionErrorKind::ExpectedCloseBrace,
                                                        );
                                                        match expect_kind(
                                        p,
                                        TokenKind::CloseBrace,
                                        ExpressionErrorKind::ExpectedCloseBrace,
                                    ) {
                                                            Err(error) => {},
                                                            Ok((p, close)) => {
                                                                push_node_limited(
                                                                    p,
                                                                    other,
                                                                    Form::LoopBreak { operand },
                                                                    Span {
                                                start: loop_start(word, label),
                                                end: close.span.end,
                                            },
                                                                );
                                                            },
                                                        }
                                                    } else {
                                                        parsed_last_exit_limited(
                                                            p,
                                                            other,
                                                            label,
                                                            depth,
                                                        );
                                                        match parsed_last_exit(p, label, depth) {
                                                            Err(error) => {},
                                                            Ok((p, (fallback, close))) => {
                                                                push_node_limited(
                                                                    p,
                                                                    other,
                                                                    Form::Sequence { first: operand, then: fallback },
                                                                    Span {
                                                start: loop_start(word, label),
                                                end: close.span.end,
                                            },
                                                                );
                                                            },
                                                        }
                                                    }
                                                },
                                            }
                                        },
                                    }
                                }
                            },
                        }
                    },
                }
            },
        }
    }
}

pub(crate) proof fn parsed_root_limited(
    p: Parsing,
    other: int,
    depth: int,
)
    ensures
        limited(
            p,
            parsed_root(p, depth),
            other,
            parsed_root(with_limit(p, other), depth),
        ),
{
    next_reads_limited(p, other, "return"@);
    match next_reads(p, "return"@) {
        Err(error) => {},
        Ok((p, false)) => {
            parsed_expression_limited(p, other, 0, depth);
        },
        Ok((p, true)) => {
            take_limited(p, other);
            match take(p) {
                Err(error) => {},
                Ok((p, keyword)) => {
                    parsed_expression_limited(p, other, 0, depth + 1);
                    match parsed_expression(p, 0, depth + 1) {
                        Err(error) => {},
                        Ok((p, operand)) => {
                            match span_of(p, operand) {
                                Err(error) => {},
                                Ok(span) => {
                                    next_is_limited(p, other, TokenKind::Semicolon);
                                    match next_is(p, TokenKind::Semicolon) {
                                        Err(error) => {},
                                        Ok((p, semicolon)) => {
                                            take_limited(p, other);
                                            match (if semicolon {
                            take(p)
                        } else {
                            Ok((p, None))
                        }) {
                                                Err(error) => {},
                                                Ok((p, _)) => {
                                                    push_node_limited(
                                                        p,
                                                        other,
                                                        Form::Return { operand },
                                                        Span { start: keyword->0.span.start, end: span.end },
                                                    );
                                                },
                                            }
                                        },
                                    }
                                },
                            }
                        },
                    }
                },
            }
        },
    }
}

} // verus!
