//! The rules of the grammar for expressions, one at a time.
//!
//! The rules refer to each other, so the definition of one brings all of them with it. Each lemma
//! here gives what one rule says and leaves the rules that it refers to as they are.
use crate::expression::{
    ExprId, ExpressionError, ExpressionErrorKind, Form, MAX_ARRAY_ELEMENTS,
    MAX_CALL_ARGUMENTS, level_refused,
};
use crate::grammar::{
    Arm, Arms, Binding, InnerExits, MAX_INLINE_CONST_ASSIGNMENTS, MAX_INLINE_CONST_BINDINGS,
    MAX_INLINE_CONST_EXPRESSION_STATEMENTS, MAX_LOOP_BREAK_BRANCHES, Parsing, Pattern,
    ValueLoopControlTarget, Word, advances, annotated, arm_binding, arm_bound,
    assigned_form, assignment_operator, binding_place, broken_tree, closed_array,
    closed_call, closed_index_range, closed_loop, decision, error_at, expect_break_target,
    expect_kind, expect_operator, expect_text, form_of, front, is_kind, is_text, lookahead,
    loop_exits, loop_start, method_form, nesting_error, next_is, next_operator, next_reads,
    operator_named, parsed_annotation, parsed_arguments, parsed_arm, parsed_arm_end,
    parsed_arm_start, parsed_arms, parsed_array, parsed_assignment, parsed_atom,
    parsed_atom_from, parsed_binding, parsed_block, parsed_bound_expression,
    parsed_bound_statement, parsed_braced_break, parsed_branch_operand, parsed_break,
    parsed_break_operand, parsed_break_target, parsed_cast, parsed_casts,
    parsed_condition_operand, parsed_const, parsed_default, parsed_elements, parsed_else,
    parsed_exit, parsed_expression, parsed_fallback, parsed_guard, parsed_if, parsed_index,
    parsed_index_range, parsed_inner_branches, parsed_labelled, parsed_last_exit,
    parsed_loop, parsed_loop_branches, parsed_match, parsed_method, parsed_mut,
    parsed_mutability, parsed_name, parsed_nested_break_operand, parsed_nested_loop,
    parsed_operators, parsed_outer_exit, parsed_parentheses, parsed_plain_atom,
    parsed_plain_name, parsed_postfix, parsed_repeat, parsed_statements, parsed_suffixes,
    parsed_unary, parsed_while, peek, prefix_operator, push_across, push_character,
    push_from, push_integer, push_node, push_to, push_unit_at, sequenced, skipped_body,
    span_of, take, unit_form, with_bindings,
};
use crate::token::{
    Span, TokenKind,
};
use vstd::prelude::*;

verus! {

pub proof fn parsed_expression_rule(p: Parsing, minimum: int, depth: int)
    ensures
        parsed_expression(p, minimum, depth) == ({
            if level_refused(depth) {
                Err(nesting_error(p))
            } else {
                match parsed_cast(p, depth + 1) {
                    Err(error) => Err(error),
                    Ok((p, left)) => parsed_operators(p, left, minimum, depth),
                }
            }
        }),
{
    reveal(parsed_expression);
    reveal(parsed_cast);
    reveal(parsed_operators);
}

pub proof fn parsed_operators_rule(p: Parsing, left: ExprId, minimum: int, depth: int)
    ensures
        parsed_operators(p, left, minimum, depth) == ({
            if level_refused(depth) {
                Err(nesting_error(p))
            } else {
                match peek(p) {
                    Err(error) => Err(error),
                    Ok(q) => match front(q) {
                        None => Ok((q, left)),
                        Some(word) => match operator_named(word.text) {
                            None => Ok((q, left)),
                            Some((operator, precedence)) => if precedence < minimum {
                                Ok((q, left))
                            } else {
                                match take(q) {
                                    Err(error) => Err(error),
                                    Ok((q, _)) => match parsed_expression(q, precedence + 1, depth + 1) {
                                        Err(error) => Err(error),
                                        Ok((q, right)) => match push_across(
                                            q,
                                            Form::Binary { operator, left, right },
                                            left,
                                            right,
                                        ) {
                                            Err(error) => Err(error),
                                            Ok((q, both)) => if advances(p, q) {
                                                parsed_operators(q, both, minimum, depth)
                                            } else {
                                                Err(broken_tree(q))
                                            },
                                        },
                                    },
                                }
                            },
                        },
                    },
                }
            }
        }),
{
    reveal(parsed_operators);
    reveal(parsed_expression);
}

pub proof fn parsed_cast_rule(p: Parsing, depth: int)
    ensures
        parsed_cast(p, depth) == ({
            if level_refused(depth) {
                Err(nesting_error(p))
            } else {
                match parsed_unary(p, depth + 1) {
                    Err(error) => Err(error),
                    Ok((p, operand)) => parsed_casts(p, operand),
                }
            }
        }),
{
    reveal(parsed_cast);
    reveal(parsed_unary);
}

pub proof fn parsed_unary_rule(p: Parsing, depth: int)
    ensures
        parsed_unary(p, depth) == ({
            if level_refused(depth) {
                Err(nesting_error(p))
            } else {
                match peek(p) {
                    Err(error) => Err(error),
                    Ok(p) => match front(p) {
                        None => parsed_postfix(p, depth + 1),
                        Some(word) => match prefix_operator(word.text) {
                            None => parsed_postfix(p, depth + 1),
                            Some(operator) => match take(p) {
                                Err(error) => Err(error),
                                Ok((p, _)) => match parsed_mutability(p, operator) {
                                    Err(error) => Err(error),
                                    Ok((p, operator)) => match parsed_unary(p, depth + 1) {
                                        Err(error) => Err(error),
                                        Ok((p, operand)) => push_from(
                                            p,
                                            Form::Unary { operator, operand },
                                            word.span.start,
                                            operand,
                                        ),
                                    },
                                },
                            },
                        },
                    },
                }
            }
        }),
{
    reveal(parsed_unary);
    reveal(parsed_postfix);
}

pub proof fn parsed_postfix_rule(p: Parsing, depth: int)
    ensures
        parsed_postfix(p, depth) == ({
            match parsed_atom(p, depth) {
                Err(error) => Err(error),
                Ok((p, base)) => parsed_suffixes(p, base, depth),
            }
        }),
{
    reveal(parsed_postfix);
    reveal(parsed_atom);
    reveal(parsed_suffixes);
}

pub proof fn parsed_suffixes_rule(p: Parsing, base: ExprId, depth: int)
    ensures
        parsed_suffixes(p, base, depth) == ({
            match peek(p) {
                Err(error) => Err(error),
                Ok(q) => if is_kind(front(q), TokenKind::OpenBracket) {
                    match take(q) {
                        Err(error) => Err(error),
                        Ok((q, _)) => match parsed_index(q, base, depth) {
                            Err(error) => Err(error),
                            Ok((q, indexed)) => if advances(p, q) {
                                parsed_suffixes(q, indexed, depth)
                            } else {
                                Err(broken_tree(q))
                            },
                        },
                    }
                } else if is_kind(front(q), TokenKind::Dot) {
                    match take(q) {
                        Err(error) => Err(error),
                        Ok((r, _)) => match next_is(r, TokenKind::Identifier) {
                            Err(error) => Err(error),
                            Ok((_, false)) => Ok((q, base)),
                            Ok((r, true)) => match parsed_method(r, base, depth) {
                                Err(error) => Err(error),
                                Ok((r, called)) => if advances(p, r) {
                                    parsed_suffixes(r, called, depth)
                                } else {
                                    Err(broken_tree(r))
                                },
                            },
                        },
                    }
                } else {
                    Ok((q, base))
                },
            }
        }),
{
    reveal(parsed_suffixes);
    reveal(parsed_index);
    reveal(parsed_method);
}

pub proof fn parsed_index_rule(p: Parsing, base: ExprId, depth: int)
    ensures
        parsed_index(p, base, depth) == ({
            match next_is(p, TokenKind::Dot) {
                Err(error) => Err(error),
                Ok((p, true)) => parsed_index_range(p, base, None, depth),
                Ok((p, false)) => match parsed_expression(p, 0, depth + 1) {
                    Err(error) => Err(error),
                    Ok((p, index)) => match next_is(p, TokenKind::Dot) {
                        Err(error) => Err(error),
                        Ok((p, true)) => parsed_index_range(p, base, Some(index), depth),
                        Ok((p, false)) => match expect_kind(
                            p,
                            TokenKind::CloseBracket,
                            ExpressionErrorKind::ExpectedCloseBracket,
                        ) {
                            Err(error) => Err(error),
                            Ok((p, close)) => push_to(p, Form::Index { base, index }, base, close),
                        },
                    },
                },
            }
        }),
{
    reveal(parsed_index);
    reveal(parsed_expression);
    reveal(parsed_index_range);
}

pub proof fn parsed_index_range_rule(p: Parsing, base: ExprId, start: Option<ExprId>, depth: int)
    ensures
        parsed_index_range(p, base, start, depth) == ({
            match take(p) {
                Err(error) => Err(error),
                Ok((p, _)) => match expect_kind(p, TokenKind::Dot, ExpressionErrorKind::ExpectedExpression) {
                    Err(error) => Err(error),
                    Ok((p, _)) => match next_operator(p, "="@) {
                        Err(error) => Err(error),
                        Ok((p, true)) => match take(p) {
                            Err(error) => Err(error),
                            Ok((p, _)) => match parsed_expression(p, 0, depth + 1) {
                                Err(error) => Err(error),
                                Ok((p, end)) => closed_index_range(p, base, start, Some(end), true),
                            },
                        },
                        Ok((p, false)) => if is_kind(front(p), TokenKind::CloseBracket) {
                            closed_index_range(p, base, start, None, false)
                        } else {
                            match parsed_expression(p, 0, depth + 1) {
                                Err(error) => Err(error),
                                Ok((p, end)) => closed_index_range(p, base, start, Some(end), false),
                            }
                        },
                    },
                },
            }
        }),
{
    reveal(parsed_index_range);
    reveal(parsed_expression);
}

pub proof fn parsed_method_rule(p: Parsing, base: ExprId, depth: int)
    ensures
        parsed_method(p, base, depth) == ({
            match expect_kind(p, TokenKind::Identifier, ExpressionErrorKind::ExpectedIdentifier) {
                Err(error) => Err(error),
                Ok((p, name)) => if name.text == "is_char_boundary"@ {
                    match expect_kind(p, TokenKind::OpenParen, ExpressionErrorKind::ExpectedExpression) {
                        Err(error) => Err(error),
                        Ok((p, _)) => match parsed_expression(p, 0, depth + 1) {
                            Err(error) => Err(error),
                            Ok((p, index)) => match expect_kind(
                                p,
                                TokenKind::CloseParen,
                                ExpressionErrorKind::ExpectedCloseParen,
                            ) {
                                Err(error) => Err(error),
                                Ok((p, close)) => push_to(
                                    p,
                                    Form::StrIsCharBoundary { base, index },
                                    base,
                                    close,
                                ),
                            },
                        },
                    }
                } else {
                    match method_form(name.text, base) {
                        None => Err(error_at(p, ExpressionErrorKind::UnsupportedMethod, Some(name))),
                        Some(form) => match expect_kind(
                            p,
                            TokenKind::OpenParen,
                            ExpressionErrorKind::ExpectedExpression,
                        ) {
                            Err(error) => Err(error),
                            Ok((p, _)) => match expect_kind(
                                p,
                                TokenKind::CloseParen,
                                ExpressionErrorKind::ExpectedCloseParen,
                            ) {
                                Err(error) => Err(error),
                                Ok((p, close)) => push_to(p, form, base, close),
                            },
                        },
                    }
                },
            }
        }),
{
    reveal(parsed_method);
    reveal(parsed_expression);
}

pub proof fn parsed_atom_rule(p: Parsing, depth: int)
    ensures
        parsed_atom(p, depth) == ({
            if level_refused(depth) {
                Err(nesting_error(p))
            } else {
                match take(p) {
                    Err(error) => Err(error),
                    Ok((p, None)) => Err(error_at(p, ExpressionErrorKind::ExpectedExpression, None)),
                    Ok((p, Some(word))) => parsed_atom_from(p, word, depth),
                }
            }
        }),
{
    reveal(parsed_atom);
    reveal(parsed_atom_from);
}

pub proof fn parsed_atom_from_rule(p: Parsing, word: Word, depth: int)
    ensures
        parsed_atom_from(p, word, depth) == ({
            if word.text == "break"@ {
                parsed_break(p, word, depth)
            } else if word.kind == TokenKind::Integer {
                push_integer(p, word)
            } else if word.kind == TokenKind::Character {
                push_character(p, word)
            } else if word.text == "if"@ {
                parsed_if(p, word, depth + 1)
            } else if word.text == "match"@ {
                parsed_match(p, word, depth + 1)
            } else if word.text == "loop"@ {
                parsed_loop(p, word, None, depth + 1)
            } else if word.kind == TokenKind::Lifetime {
                parsed_labelled(p, word, depth)
            } else if word.text == "const"@ {
                parsed_const(p, word, depth + 1)
            } else {
                parsed_plain_atom(p, word, depth)
            }
        }),
{
    reveal(parsed_atom_from);
    reveal(parsed_break);
    reveal(parsed_const);
    reveal(parsed_if);
    reveal(parsed_labelled);
    reveal(parsed_loop);
    reveal(parsed_match);
    reveal(parsed_plain_atom);
}

pub proof fn parsed_labelled_rule(p: Parsing, label: Word, depth: int)
    ensures
        parsed_labelled(p, label, depth) == ({
            match expect_kind(p, TokenKind::Colon, ExpressionErrorKind::ExpectedColon) {
                Err(error) => Err(error),
                Ok((p, _)) => match expect_text(p, "loop"@, ExpressionErrorKind::ExpectedExpression) {
                    Err(error) => Err(error),
                    Ok((p, word)) => parsed_loop(p, word, Some(label), depth + 1),
                },
            }
        }),
{
    reveal(parsed_labelled);
    reveal(parsed_loop);
}

pub proof fn parsed_plain_atom_rule(p: Parsing, word: Word, depth: int)
    ensures
        parsed_plain_atom(p, word, depth) == ({
            if word.kind == TokenKind::Identifier {
                parsed_name(p, word, depth)
            } else if word.kind == TokenKind::OpenParen {
                parsed_parentheses(p, word, depth)
            } else if word.kind == TokenKind::OpenBracket {
                parsed_array(p, word, depth)
            } else if word.kind == TokenKind::OpenBrace {
                match parsed_block(p, depth + 2) {
                    Err(error) => Err(error),
                    Ok((p, (inner, _))) => Ok((p, inner)),
                }
            } else {
                Err(error_at(p, ExpressionErrorKind::ExpectedExpression, Some(word)))
            }
        }),
{
    reveal(parsed_plain_atom);
    reveal(parsed_array);
    reveal(parsed_block);
    reveal(parsed_name);
    reveal(parsed_parentheses);
}

pub proof fn parsed_break_rule(p: Parsing, word: Word, depth: int)
    ensures
        parsed_break(p, word, depth) == ({
            match next_is(p, TokenKind::CloseBrace) {
                Err(error) => Err(error),
                Ok((p, true)) => push_node(p, Form::Identifier(word.text), word.span),
                Ok((p, false)) => match parsed_nested_break_operand(p, depth + 1) {
                    Err(error) => Err(error),
                    Ok((p, operand)) => push_from(
                        p,
                        Form::LoopBreak { operand },
                        word.span.start,
                        operand,
                    ),
                },
            }
        }),
{
    reveal(parsed_break);
    reveal(parsed_nested_break_operand);
}

pub proof fn parsed_nested_break_operand_rule(p: Parsing, depth: int)
    ensures
        parsed_nested_break_operand(p, depth) == ({
            match next_is(p, TokenKind::Semicolon) {
                Err(error) => Err(error),
                Ok((p, true)) => push_unit_at(p, front(p)->0),
                Ok((p, false)) => parsed_expression(p, 0, depth + 1),
            }
        }),
{
    reveal(parsed_nested_break_operand);
    reveal(parsed_expression);
}

pub proof fn parsed_name_rule(p: Parsing, word: Word, depth: int)
    ensures
        parsed_name(p, word, depth) == ({
            if word.text == "Default"@ {
                match next_is(p, TokenKind::PathSeparator) {
                    Err(error) => Err(error),
                    Ok((p, true)) => parsed_default(p, word),
                    Ok((p, false)) => parsed_plain_name(p, word, depth),
                }
            } else {
                parsed_plain_name(p, word, depth)
            }
        }),
{
    reveal(parsed_name);
    reveal(parsed_plain_name);
}

pub proof fn parsed_plain_name_rule(p: Parsing, word: Word, depth: int)
    ensures
        parsed_plain_name(p, word, depth) == ({
            if word.text == "true"@ || word.text == "false"@ {
                push_node(p, Form::Bool(word.text == "true"@), word.span)
            } else {
                match next_is(p, TokenKind::OpenParen) {
                    Err(error) => Err(error),
                    Ok((p, false)) => push_node(p, Form::Identifier(word.text), word.span),
                    Ok((p, true)) => match take(p) {
                        Err(error) => Err(error),
                        Ok((p, _)) => match next_is(p, TokenKind::CloseParen) {
                            Err(error) => Err(error),
                            Ok((p, true)) => closed_call(p, word, seq![]),
                            Ok((p, false)) => match parsed_arguments(p, seq![], depth) {
                                Err(error) => Err(error),
                                Ok((p, arguments)) => closed_call(p, word, arguments),
                            },
                        },
                    },
                }
            }
        }),
{
    reveal(parsed_plain_name);
    reveal(parsed_arguments);
}

pub proof fn parsed_arguments_rule(p: Parsing, found: Seq<ExprId>, depth: int)
    ensures
        parsed_arguments(p, found, depth) == ({
            if found.len() >= MAX_CALL_ARGUMENTS {
                match peek(p) {
                    Err(error) => Err(error),
                    Ok(q) => Err(error_at(q, ExpressionErrorKind::TooManyCallArguments, front(q))),
                }
            } else {
                match parsed_expression(p, 0, depth + 1) {
                    Err(error) => Err(error),
                    Ok((q, argument)) => match next_is(q, TokenKind::Comma) {
                        Err(error) => Err(error),
                        Ok((q, false)) => Ok((q, found.push(argument))),
                        Ok((q, true)) => match take(q) {
                            Err(error) => Err(error),
                            Ok((q, _)) => if advances(p, q) {
                                parsed_arguments(q, found.push(argument), depth)
                            } else {
                                Err(broken_tree(q))
                            },
                        },
                    },
                }
            }
        }),
{
    reveal(parsed_arguments);
    reveal(parsed_expression);
}

pub proof fn parsed_parentheses_rule(p: Parsing, open: Word, depth: int)
    ensures
        parsed_parentheses(p, open, depth) == ({
            match next_is(p, TokenKind::CloseParen) {
                Err(error) => Err(error),
                Ok((p, true)) => match expect_kind(
                    p,
                    TokenKind::CloseParen,
                    ExpressionErrorKind::ExpectedCloseParen,
                ) {
                    Err(error) => Err(error),
                    Ok((p, close)) => push_node(
                        p,
                        Form::Unit,
                        Span { start: open.span.start, end: close.span.end },
                    ),
                },
                Ok((p, false)) => match parsed_expression(p, 0, depth + 1) {
                    Err(error) => Err(error),
                    Ok((p, inner)) => match expect_kind(
                        p,
                        TokenKind::CloseParen,
                        ExpressionErrorKind::ExpectedCloseParen,
                    ) {
                        Err(error) => Err(error),
                        Ok((p, _)) => Ok((p, inner)),
                    },
                },
            }
        }),
{
    reveal(parsed_parentheses);
    reveal(parsed_expression);
}

pub proof fn parsed_array_rule(p: Parsing, open: Word, depth: int)
    ensures
        parsed_array(p, open, depth) == ({
            match next_is(p, TokenKind::CloseBracket) {
                Err(error) => Err(error),
                Ok((p, true)) => closed_array(p, open, seq![]),
                Ok((p, false)) => match parsed_expression(p, 0, depth + 1) {
                    Err(error) => Err(error),
                    Ok((p, first)) => match next_is(p, TokenKind::Semicolon) {
                        Err(error) => Err(error),
                        Ok((p, true)) => parsed_repeat(p, open, first),
                        Ok((p, false)) => match parsed_elements(p, seq![first], depth) {
                            Err(error) => Err(error),
                            Ok((p, elements)) => closed_array(p, open, elements),
                        },
                    },
                },
            }
        }),
{
    reveal(parsed_array);
    reveal(parsed_elements);
    reveal(parsed_expression);
}

pub proof fn parsed_elements_rule(p: Parsing, found: Seq<ExprId>, depth: int)
    ensures
        parsed_elements(p, found, depth) == ({
            match next_is(p, TokenKind::Comma) {
                Err(error) => Err(error),
                Ok((q, false)) => Ok((q, found)),
                Ok((q, true)) => match take(q) {
                    Err(error) => Err(error),
                    Ok((q, _)) => match next_is(q, TokenKind::CloseBracket) {
                        Err(error) => Err(error),
                        Ok((q, true)) => Ok((q, found)),
                        Ok((q, false)) => if found.len() >= MAX_ARRAY_ELEMENTS {
                            Err(error_at(q, ExpressionErrorKind::TooManyArrayElements, front(q)))
                        } else {
                            match parsed_expression(q, 0, depth + 1) {
                                Err(error) => Err(error),
                                Ok((q, element)) => if advances(p, q) {
                                    parsed_elements(q, found.push(element), depth)
                                } else {
                                    Err(broken_tree(q))
                                },
                            }
                        },
                    },
                },
            }
        }),
{
    reveal(parsed_elements);
    reveal(parsed_expression);
}

pub proof fn parsed_const_rule(p: Parsing, word: Word, depth: int)
    ensures
        parsed_const(p, word, depth) == ({
            match expect_kind(p, TokenKind::OpenBrace, ExpressionErrorKind::ExpectedOpenBrace) {
                Err(error) => Err(error),
                Ok((p, _)) => match parsed_block(p, depth) {
                    Err(error) => Err(error),
                    Ok((p, (operand, _))) => push_from(
                        p,
                        Form::InlineConst { operand },
                        word.span.start,
                        operand,
                    ),
                },
            }
        }),
{
    reveal(parsed_const);
    reveal(parsed_block);
}

pub proof fn parsed_block_rule(p: Parsing, depth: int)
    ensures
        parsed_block(p, depth) == ({
            match parsed_statements(p, seq![], 0, seq![], depth) {
                Err(error) => Err(error),
                Ok((p, (statements, tail))) => match expect_kind(
                    p,
                    TokenKind::CloseBrace,
                    ExpressionErrorKind::ExpectedCloseBrace,
                ) {
                    Err(error) => Err(error),
                    Ok((p, close)) => match sequenced(p, statements, statements.len() as int, tail) {
                        Err(error) => Err(error),
                        Ok((p, value)) => Ok((p, (value, close.span.end))),
                    },
                },
            }
        }),
{
    reveal(parsed_block);
    reveal(parsed_statements);
}

pub proof fn parsed_statements_rule(
    p: Parsing,
    bindings: Seq<Binding>,
    assignments: int,
    statements: Seq<ExprId>,
    depth: int,
)
    ensures
        parsed_statements(p, bindings, assignments, statements, depth) == ({
            match peek(p) {
                Err(error) => Err(error),
                Ok(q) => if is_kind(front(q), TokenKind::CloseBrace) {
                    match push_unit_at(q, front(q)->0) {
                        Err(error) => Err(error),
                        Ok((q, unit)) => Ok((q, (statements, unit))),
                    }
                } else if is_text(front(q), "let"@) {
                    match parsed_binding(q, bindings, depth + 1) {
                        Err(error) => Err(error),
                        Ok((q, bindings)) => if advances(p, q) {
                            parsed_statements(q, bindings, assignments, statements, depth)
                        } else {
                            Err(broken_tree(q))
                        },
                    }
                } else {
                    match parsed_assignment(q, bindings, assignments, depth + 1) {
                        Err(error) => Err(error),
                        Ok((q, Some(bindings))) => if advances(p, q) {
                            parsed_statements(q, bindings, assignments + 1, statements, depth)
                        } else {
                            Err(broken_tree(q))
                        },
                        Ok((q, None)) => match parsed_bound_expression(q, bindings, depth + 1) {
                            Err(error) => Err(error),
                            Ok((q, expression)) => match next_is(q, TokenKind::Semicolon) {
                                Err(error) => Err(error),
                                Ok((q, false)) => Ok((q, (statements, expression))),
                                Ok((q, true)) => match take(q) {
                                    Err(error) => Err(error),
                                    Ok((q, semicolon)) => if statements.len()
                                        >= MAX_INLINE_CONST_EXPRESSION_STATEMENTS {
                                        Err(
                                            error_at(
                                                q,
                                                ExpressionErrorKind::TooManyInlineConstExpressionStatements,
                                                semicolon,
                                            ),
                                        )
                                    } else if advances(p, q) {
                                        parsed_statements(
                                            q,
                                            bindings,
                                            assignments,
                                            statements.push(expression),
                                            depth,
                                        )
                                    } else {
                                        Err(broken_tree(q))
                                    },
                                },
                            },
                        },
                    }
                },
            }
        }),
{
    reveal(parsed_statements);
    reveal(parsed_assignment);
    reveal(parsed_binding);
    reveal(parsed_bound_expression);
}

pub proof fn parsed_bound_expression_rule(p: Parsing, bindings: Seq<Binding>, depth: int)
    ensures
        parsed_bound_expression(p, bindings, depth) == ({
            match parsed_expression(p, 0, depth) {
                Err(error) => Err(error),
                Ok((p, expression)) => match with_bindings(
                    p,
                    expression,
                    bindings,
                    bindings.len() as int,
                    depth,
                ) {
                    Err(error) => Err(error),
                    Ok(p) => Ok((p, expression)),
                },
            }
        }),
{
    reveal(parsed_bound_expression);
    reveal(parsed_expression);
}

pub proof fn parsed_bound_statement_rule(p: Parsing, bindings: Seq<Binding>, depth: int)
    ensures
        parsed_bound_statement(p, bindings, depth) == ({
            match parsed_expression(p, 0, depth) {
                Err(error) => Err(error),
                Ok((p, expression)) => match expect_kind(
                    p,
                    TokenKind::Semicolon,
                    ExpressionErrorKind::ExpectedSemicolon,
                ) {
                    Err(error) => Err(error),
                    Ok((p, _)) => match with_bindings(
                        p,
                        expression,
                        bindings,
                        bindings.len() as int,
                        depth,
                    ) {
                        Err(error) => Err(error),
                        Ok(p) => Ok((p, expression)),
                    },
                },
            }
        }),
{
    reveal(parsed_bound_statement);
    reveal(parsed_expression);
}

pub proof fn parsed_binding_rule(p: Parsing, bindings: Seq<Binding>, depth: int)
    ensures
        parsed_binding(p, bindings, depth) == ({
            match take(p) {
                Err(error) => Err(error),
                Ok((p, let_word)) => if bindings.len() >= MAX_INLINE_CONST_BINDINGS {
                    Err(error_at(p, ExpressionErrorKind::TooManyInlineConstBindings, let_word))
                } else {
                    match parsed_mut(p) {
                        Err(error) => Err(error),
                        Ok((p, mutable)) => match expect_kind(
                            p,
                            TokenKind::Identifier,
                            ExpressionErrorKind::ExpectedIdentifier,
                        ) {
                            Err(error) => Err(error),
                            Ok((p, name)) => match parsed_annotation(p) {
                                Err(error) => Err(error),
                                Ok((p, annotation)) => match expect_operator(
                                    p,
                                    "="@,
                                    ExpressionErrorKind::ExpectedEquals,
                                ) {
                                    Err(error) => Err(error),
                                    Ok((p, _)) => match parsed_bound_statement(p, bindings, depth + 1) {
                                        Err(error) => Err(error),
                                        Ok((p, value)) => match form_of(p, value, name.span) {
                                            Err(error) => Err(error),
                                            Ok(form) => match annotated(p, form, annotation, name, value) {
                                                Err(error) => Err(error),
                                                Ok((p, form)) => Ok(
                                                    (
                                                        p,
                                                        bindings.push(
                                                            Binding {
                                                                name: name.text,
                                                                form,
                                                                mutable,
                                                                annotation,
                                                            },
                                                        ),
                                                    ),
                                                ),
                                            },
                                        },
                                    },
                                },
                            },
                        },
                    }
                },
            }
        }),
{
    reveal(parsed_binding);
    reveal(parsed_bound_statement);
}

pub proof fn parsed_assignment_rule(p: Parsing, bindings: Seq<Binding>, assignments: int, depth: int)
    ensures
        parsed_assignment(p, bindings, assignments, depth) == ({
            match take(p) {
                Err(error) => Err(error),
                Ok((q, first)) => if !is_kind(first, TokenKind::Identifier) {
                    Ok((p, None))
                } else {
                    let name = first->0;
                    match binding_place(bindings, name.text, bindings.len() as int) {
                        None => Ok((p, None)),
                        Some(place) => match take(q) {
                            Err(error) => Err(error),
                            Ok((q, second)) => if !is_kind(second, TokenKind::Operator) || !(is_text(
                                second,
                                "="@,
                            ) || assignment_operator(second->0.text) is Some) {
                                Ok((p, None))
                            } else if assignments >= MAX_INLINE_CONST_ASSIGNMENTS {
                                Err(
                                    ExpressionError {
                                        kind: ExpressionErrorKind::TooManyInlineConstAssignments,
                                        span: second->0.span,
                                    },
                                )
                            } else if !bindings[place].mutable {
                                Err(
                                    ExpressionError {
                                        kind: ExpressionErrorKind::ImmutableInlineConstAssignment,
                                        span: name.span,
                                    },
                                )
                            } else {
                                match parsed_bound_statement(q, bindings, depth + 1) {
                                    Err(error) => Err(error),
                                    Ok((q, value)) => match assigned_form(
                                        q,
                                        bindings[place],
                                        second->0,
                                        name,
                                        value,
                                    ) {
                                        Err(error) => Err(error),
                                        Ok((q, form)) => Ok(
                                            (
                                                q,
                                                Some(
                                                    bindings.update(
                                                        place,
                                                        Binding { form, ..bindings[place] },
                                                    ),
                                                ),
                                            ),
                                        ),
                                    },
                                }
                            },
                        },
                    }
                },
            }
        }),
{
    reveal(parsed_assignment);
    reveal(parsed_bound_statement);
}

pub proof fn parsed_if_rule(p: Parsing, word: Word, depth: int)
    ensures
        parsed_if(p, word, depth) == ({
            if level_refused(depth) {
                Err(error_at(p, ExpressionErrorKind::NestingLimitExceeded, Some(word)))
            } else {
                match parsed_expression(p, 0, depth + 1) {
                    Err(error) => Err(error),
                    Ok((p, condition)) => match expect_kind(
                        p,
                        TokenKind::OpenBrace,
                        ExpressionErrorKind::ExpectedOpenBrace,
                    ) {
                        Err(error) => Err(error),
                        Ok((p, _)) => match parsed_block(p, depth + 1) {
                            Err(error) => Err(error),
                            Ok((p, (then_branch, then_end))) => match parsed_else(
                                p,
                                then_branch,
                                then_end,
                                depth,
                            ) {
                                Err(error) => Err(error),
                                Ok((p, (else_branch, end))) => push_node(
                                    p,
                                    Form::If { condition, then_branch, else_branch },
                                    Span { start: word.span.start, end },
                                ),
                            },
                        },
                    },
                }
            }
        }),
{
    reveal(parsed_if);
    reveal(parsed_block);
    reveal(parsed_else);
    reveal(parsed_expression);
}

pub proof fn parsed_else_rule(p: Parsing, then_branch: ExprId, then_end: usize, depth: int)
    ensures
        parsed_else(p, then_branch, then_end, depth) == ({
            if level_refused(depth) {
                Err(nesting_error(p))
            } else {
                match next_reads(p, "else"@) {
                    Err(error) => Err(error),
                    Ok((p, false)) => if !unit_form(p.nodes, then_branch, depth + 1) {
                        Err(error_at(p, ExpressionErrorKind::ExpectedElse, front(p)))
                    } else {
                        match push_node(p, Form::Unit, Span { start: then_end, end: then_end }) {
                            Err(error) => Err(error),
                            Ok((p, unit)) => Ok((p, (unit, then_end))),
                        }
                    },
                    Ok((p, true)) => match take(p) {
                        Err(error) => Err(error),
                        Ok((p, _)) => match next_reads(p, "if"@) {
                            Err(error) => Err(error),
                            Ok((p, true)) => match take(p) {
                                Err(error) => Err(error),
                                Ok((p, nested)) => match parsed_if(p, nested->0, depth + 1) {
                                    Err(error) => Err(error),
                                    Ok((p, branch)) => match span_of(p, branch) {
                                        Err(error) => Err(error),
                                        Ok(span) => Ok((p, (branch, span.end))),
                                    },
                                },
                            },
                            Ok((p, false)) => match expect_kind(
                                p,
                                TokenKind::OpenBrace,
                                ExpressionErrorKind::ExpectedOpenBrace,
                            ) {
                                Err(error) => Err(error),
                                Ok((p, _)) => parsed_block(p, depth + 1),
                            },
                        },
                    },
                }
            }
        }),
{
    reveal(parsed_else);
    reveal(parsed_block);
    reveal(parsed_if);
}

pub proof fn parsed_match_rule(p: Parsing, word: Word, depth: int)
    ensures
        parsed_match(p, word, depth) == ({
            if level_refused(depth) {
                Err(error_at(p, ExpressionErrorKind::NestingLimitExceeded, Some(word)))
            } else {
                match parsed_expression(p, 0, depth + 1) {
                    Err(error) => Err(error),
                    Ok((p, scrutinee)) => match expect_kind(
                        p,
                        TokenKind::OpenBrace,
                        ExpressionErrorKind::ExpectedOpenBrace,
                    ) {
                        Err(error) => Err(error),
                        Ok((p, _)) => match parsed_arms(p, seq![], scrutinee, word, depth) {
                            Err(error) => Err(error),
                            Ok((p, arms)) => decision(
                                p,
                                scrutinee,
                                arms.arms,
                                arms.arms.len() as int,
                                arms.otherwise,
                                Span { start: word.span.start, end: arms.close.span.end },
                                word.span,
                            ),
                        },
                    },
                }
            }
        }),
{
    reveal(parsed_match);
    reveal(parsed_arms);
    reveal(parsed_expression);
}

pub proof fn parsed_arms_rule(p: Parsing, arms: Seq<Arm>, scrutinee: ExprId, word: Word, depth: int)
    ensures
        parsed_arms(p, arms, scrutinee, word, depth) == ({
            match parsed_arm_start(p, arms.len() as int, depth) {
                Err(error) => Err(error),
                Ok((q, None)) => parsed_fallback(q, arms, depth),
                Ok((q, Some(alternatives))) => match parsed_arm(q, alternatives, scrutinee, word, depth) {
                    Err(error) => Err(error),
                    Ok((q, (arm, block))) => match parsed_arm_end(q, arms.push(arm), block) {
                        Err(error) => Err(error),
                        Ok((q, Some(all))) => Ok((q, all)),
                        Ok((q, None)) => if advances(p, q) {
                            parsed_arms(q, arms.push(arm), scrutinee, word, depth)
                        } else {
                            Err(broken_tree(q))
                        },
                    },
                },
            }
        }),
{
    reveal(parsed_arms);
    reveal(parsed_arm);
    reveal(parsed_fallback);
}

pub proof fn parsed_fallback_rule(p: Parsing, arms: Seq<Arm>, depth: int)
    ensures
        parsed_fallback(p, arms, depth) == ({
            match expect_kind(p, TokenKind::FatArrow, ExpressionErrorKind::ExpectedFatArrow) {
                Err(error) => Err(error),
                Ok((p, _)) => match parsed_expression(p, 0, depth + 1) {
                    Err(error) => Err(error),
                    Ok((p, otherwise)) => match next_is(p, TokenKind::Comma) {
                        Err(error) => Err(error),
                        Ok((p, comma)) => match (if comma {
                            take(p)
                        } else {
                            Ok((p, None))
                        }) {
                            Err(error) => Err(error),
                            Ok((p, _)) => match expect_kind(
                                p,
                                TokenKind::CloseBrace,
                                ExpressionErrorKind::ExpectedCloseBrace,
                            ) {
                                Err(error) => Err(error),
                                Ok((p, close)) => Ok((p, Arms { arms, otherwise, close })),
                            },
                        },
                    },
                },
            }
        }),
{
    reveal(parsed_fallback);
    reveal(parsed_expression);
}

pub proof fn parsed_guard_rule(p: Parsing, depth: int)
    ensures
        parsed_guard(p, depth) == ({
            match next_reads(p, "if"@) {
                Err(error) => Err(error),
                Ok((p, false)) => Ok((p, None)),
                Ok((p, true)) => match take(p) {
                    Err(error) => Err(error),
                    Ok((p, _)) => match parsed_expression(p, 0, depth + 1) {
                        Err(error) => Err(error),
                        Ok((p, guard)) => Ok((p, Some(guard))),
                    },
                },
            }
        }),
{
    reveal(parsed_guard);
    reveal(parsed_expression);
}

pub proof fn parsed_arm_rule(
    p: Parsing,
    alternatives: Seq<Pattern>,
    scrutinee: ExprId,
    word: Word,
    depth: int,
)
    ensures
        parsed_arm(p, alternatives, scrutinee, word, depth) == ({
            match arm_binding(p, alternatives) {
                Err(error) => Err(error),
                Ok(name) => match parsed_guard(p, depth) {
                    Err(error) => Err(error),
                    Ok((p, guard)) => match expect_kind(
                        p,
                        TokenKind::FatArrow,
                        ExpressionErrorKind::ExpectedFatArrow,
                    ) {
                        Err(error) => Err(error),
                        Ok((p, _)) => match next_is(p, TokenKind::OpenBrace) {
                            Err(error) => Err(error),
                            Ok((p, block)) => match parsed_expression(p, 0, depth + 1) {
                                Err(error) => Err(error),
                                Ok((p, branch)) => match arm_bound(
                                    p,
                                    name,
                                    guard,
                                    branch,
                                    scrutinee,
                                    word,
                                    depth,
                                ) {
                                    Err(error) => Err(error),
                                    Ok(p) => Ok((p, (Arm { alternatives, guard, branch }, block))),
                                },
                            },
                        },
                    },
                },
            }
        }),
{
    reveal(parsed_arm);
    reveal(parsed_expression);
    reveal(parsed_guard);
}

pub proof fn parsed_break_operand_rule(p: Parsing, depth: int)
    ensures
        parsed_break_operand(p, depth) == ({
            match next_is(p, TokenKind::Semicolon) {
                Err(error) => Err(error),
                Ok((p, true)) => match take(p) {
                    Err(error) => Err(error),
                    Ok((p, semicolon)) => push_unit_at(p, semicolon->0),
                },
                Ok((p, false)) => match parsed_expression(p, 0, depth + 1) {
                    Err(error) => Err(error),
                    Ok((p, operand)) => match expect_kind(
                        p,
                        TokenKind::Semicolon,
                        ExpressionErrorKind::TrailingToken,
                    ) {
                        Err(error) => Err(error),
                        Ok((p, _)) => Ok((p, operand)),
                    },
                },
            }
        }),
{
    reveal(parsed_break_operand);
    reveal(parsed_expression);
}

pub proof fn parsed_branch_operand_rule(p: Parsing, depth: int)
    ensures
        parsed_branch_operand(p, depth) == ({
            match next_is(p, TokenKind::Semicolon) {
                Err(error) => Err(error),
                Ok((p, true)) => match take(p) {
                    Err(error) => Err(error),
                    Ok((p, semicolon)) => push_unit_at(p, semicolon->0),
                },
                Ok((p, false)) => match parsed_expression(p, 0, depth + 1) {
                    Err(error) => Err(error),
                    Ok((p, operand)) => match next_is(p, TokenKind::CloseBrace) {
                        Err(error) => Err(error),
                        Ok((p, true)) => Ok((p, operand)),
                        Ok((p, false)) => match expect_kind(
                            p,
                            TokenKind::Semicolon,
                            ExpressionErrorKind::TrailingToken,
                        ) {
                            Err(error) => Err(error),
                            Ok((p, _)) => Ok((p, operand)),
                        },
                    },
                },
            }
        }),
{
    reveal(parsed_branch_operand);
    reveal(parsed_expression);
}

pub proof fn parsed_condition_operand_rule(p: Parsing, depth: int)
    ensures
        parsed_condition_operand(p, depth) == ({
            match next_is(p, TokenKind::OpenBrace) {
                Err(error) => Err(error),
                Ok((p, true)) => push_unit_at(p, front(p)->0),
                Ok((p, false)) => parsed_expression(p, 0, depth + 1),
            }
        }),
{
    reveal(parsed_condition_operand);
    reveal(parsed_expression);
}

pub proof fn parsed_loop_rule(p: Parsing, word: Word, label: Option<Word>, depth: int)
    ensures
        parsed_loop(p, word, label, depth) == ({
            if level_refused(depth) {
                Err(error_at(p, ExpressionErrorKind::NestingLimitExceeded, Some(word)))
            } else {
                match expect_kind(p, TokenKind::OpenBrace, ExpressionErrorKind::ExpectedOpenBrace) {
                    Err(error) => Err(error),
                    Ok((p, _)) => match peek(p) {
                        Err(error) => Err(error),
                        Ok(p) => if is_kind(front(p), TokenKind::Lifetime) {
                            parsed_nested_loop(p, word, label, depth + 1)
                        } else if is_text(front(p), "while"@) {
                            match take(p) {
                                Err(error) => Err(error),
                                Ok((p, _)) => parsed_while(p, word, label, None, depth + 1),
                            }
                        } else {
                            match take(p) {
                                Err(error) => Err(error),
                                Ok((p, control)) => match parsed_loop_branches(
                                    p,
                                    control,
                                    seq![],
                                    seq![],
                                    word,
                                    label,
                                    depth,
                                ) {
                                    Err(error) => Err(error),
                                    Ok((p, exits)) => {
                                        let span = Span {
                                            start: loop_start(word, label),
                                            end: exits.close.span.end,
                                        };
                                        if exits.conditions.len() == 0 {
                                            push_node(p, Form::LoopBreak { operand: exits.otherwise }, span)
                                        } else {
                                            loop_exits(
                                                p,
                                                exits.conditions,
                                                exits.branches,
                                                exits.conditions.len() as int,
                                                exits.otherwise,
                                                span,
                                            )
                                        }
                                    },
                                },
                            }
                        },
                    },
                }
            }
        }),
{
    reveal(parsed_loop);
    reveal(parsed_loop_branches);
    reveal(parsed_nested_loop);
    reveal(parsed_while);
}

pub proof fn parsed_exit_rule(
    p: Parsing,
    current: Option<Word>,
    enclosing: Option<Word>,
    target: Option<ValueLoopControlTarget>,
    depth: int,
)
    ensures
        parsed_exit(p, current, enclosing, target, depth) == ({
            match parsed_expression(p, 0, depth + 1) {
                Err(error) => Err(error),
                Ok((p, condition)) => match expect_kind(
                    p,
                    TokenKind::OpenBrace,
                    ExpressionErrorKind::ExpectedOpenBrace,
                ) {
                    Err(error) => Err(error),
                    Ok((p, _)) => match parsed_braced_break(p, current, enclosing, target, depth) {
                        Err(error) => Err(error),
                        Ok((p, branch)) => Ok((p, (condition, branch))),
                    },
                },
            }
        }),
{
    reveal(parsed_exit);
    reveal(parsed_braced_break);
    reveal(parsed_expression);
}

pub proof fn parsed_braced_break_rule(
    p: Parsing,
    current: Option<Word>,
    enclosing: Option<Word>,
    target: Option<ValueLoopControlTarget>,
    depth: int,
)
    ensures
        parsed_braced_break(p, current, enclosing, target, depth) == ({
            match expect_text(p, "break"@, ExpressionErrorKind::ExpectedExpression) {
                Err(error) => Err(error),
                Ok((p, word)) => match parsed_break_target(p, current, enclosing) {
                    Err(error) => Err(error),
                    Ok((p, actual)) => if target is Some && target != Some(actual) {
                        Err(error_at(p, ExpressionErrorKind::InvalidLoopBreakTarget, Some(word)))
                    } else {
                        match parsed_branch_operand(p, depth + 1) {
                            Err(error) => Err(error),
                            Ok((p, operand)) => match expect_kind(
                                p,
                                TokenKind::CloseBrace,
                                ExpressionErrorKind::ExpectedCloseBrace,
                            ) {
                                Err(error) => Err(error),
                                Ok((p, _)) => Ok((p, operand)),
                            },
                        }
                    },
                },
            }
        }),
{
    reveal(parsed_braced_break);
    reveal(parsed_branch_operand);
}

pub proof fn parsed_loop_branches_rule(
    p: Parsing,
    control: Option<Word>,
    conditions: Seq<ExprId>,
    branches: Seq<ExprId>,
    word: Word,
    label: Option<Word>,
    depth: int,
)
    ensures
        parsed_loop_branches(p, control, conditions, branches, word, label, depth) == ({
            if is_text(control, "if"@) {
                if conditions.len() >= MAX_LOOP_BREAK_BRANCHES {
                    Err(error_at(p, ExpressionErrorKind::TooManyLoopBreakBranches, control))
                } else {
                    match parsed_exit(p, label, None, None, depth) {
                        Err(error) => Err(error),
                        Ok((q, (condition, branch))) => match take(q) {
                            Err(error) => Err(error),
                            Ok((q, next)) => {
                                let conditions = conditions.push(condition);
                                let branches = branches.push(branch);
                                if !is_text(next, "else"@) {
                                    if advances(p, q) {
                                        parsed_loop_branches(
                                            q,
                                            next,
                                            conditions,
                                            branches,
                                            word,
                                            label,
                                            depth,
                                        )
                                    } else {
                                        Err(broken_tree(q))
                                    }
                                } else {
                                    match take(q) {
                                        Err(error) => Err(error),
                                        Ok((q, alternative)) => if is_text(alternative, "if"@) {
                                            if advances(p, q) {
                                                parsed_loop_branches(
                                                    q,
                                                    alternative,
                                                    conditions,
                                                    branches,
                                                    word,
                                                    label,
                                                    depth,
                                                )
                                            } else {
                                                Err(broken_tree(q))
                                            }
                                        } else if !is_kind(alternative, TokenKind::OpenBrace) {
                                            Err(
                                                error_at(
                                                    q,
                                                    ExpressionErrorKind::ExpectedOpenBrace,
                                                    alternative,
                                                ),
                                            )
                                        } else {
                                            match parsed_braced_break(q, label, None, None, depth) {
                                                Err(error) => Err(error),
                                                Ok((q, otherwise)) => closed_loop(
                                                    q,
                                                    conditions,
                                                    branches,
                                                    otherwise,
                                                ),
                                            }
                                        },
                                    }
                                }
                            },
                        },
                    }
                }
            } else if !is_text(control, "break"@) {
                Err(error_at(p, ExpressionErrorKind::ExpectedExpression, control))
            } else {
                match parsed_break_target(p, label, None) {
                    Err(error) => Err(error),
                    Ok((q, _)) => match parsed_break_operand(q, depth + 1) {
                        Err(error) => Err(error),
                        Ok((q, operand)) => match next_reads(q, "break"@) {
                            Err(error) => Err(error),
                            Ok((q, false)) => closed_loop(q, conditions, branches, operand),
                            Ok((q, true)) => if conditions.len() >= MAX_LOOP_BREAK_BRANCHES {
                                Err(error_at(q, ExpressionErrorKind::TooManyLoopBreakBranches, control))
                            } else {
                                match push_node(q, Form::Bool(true), control->0.span) {
                                    Err(error) => Err(error),
                                    Ok((q, condition)) => match take(q) {
                                        Err(error) => Err(error),
                                        Ok((q, next)) => if advances(p, q) {
                                            parsed_loop_branches(
                                                q,
                                                next,
                                                conditions.push(condition),
                                                branches.push(operand),
                                                word,
                                                label,
                                                depth,
                                            )
                                        } else {
                                            Err(broken_tree(q))
                                        },
                                    },
                                }
                            },
                        },
                    },
                }
            }
        }),
{
    reveal(parsed_loop_branches);
    reveal(parsed_braced_break);
    reveal(parsed_break_operand);
    reveal(parsed_exit);
}

pub proof fn parsed_nested_loop_rule(p: Parsing, word: Word, label: Option<Word>, depth: int)
    ensures
        parsed_nested_loop(p, word, label, depth) == ({
            if level_refused(depth) {
                Err(error_at(p, ExpressionErrorKind::NestingLimitExceeded, Some(word)))
            } else {
                match take(p) {
                    Err(error) => Err(error),
                    Ok((p, None)) => Err(error_at(p, ExpressionErrorKind::ExpectedExpression, lookahead(p))),
                    Ok((p, Some(inner))) => match expect_kind(
                        p,
                        TokenKind::Colon,
                        ExpressionErrorKind::ExpectedColon,
                    ) {
                        Err(error) => Err(error),
                        Ok((p, _)) => match take(p) {
                            Err(error) => Err(error),
                            Ok((p, keyword)) => if is_text(keyword, "while"@) {
                                parsed_while(p, word, label, Some(inner), depth + 1)
                            } else if !is_text(keyword, "loop"@) {
                                Err(error_at(p, ExpressionErrorKind::ExpectedExpression, keyword))
                            } else {
                                match expect_kind(
                                    p,
                                    TokenKind::OpenBrace,
                                    ExpressionErrorKind::ExpectedOpenBrace,
                                ) {
                                    Err(error) => Err(error),
                                    Ok((p, _)) => match take(p) {
                                        Err(error) => Err(error),
                                        Ok((p, control)) => match parsed_inner_branches(
                                            p,
                                            control,
                                            seq![],
                                            seq![],
                                            inner,
                                            label,
                                            depth,
                                        ) {
                                            Err(error) => Err(error),
                                            Ok((p, exits)) => parsed_outer_exit(
                                                p,
                                                exits,
                                                word,
                                                label,
                                                depth,
                                            ),
                                        },
                                    },
                                }
                            },
                        },
                    },
                }
            }
        }),
{
    reveal(parsed_nested_loop);
    reveal(parsed_inner_branches);
    reveal(parsed_outer_exit);
    reveal(parsed_while);
}

pub proof fn parsed_inner_branches_rule(
    p: Parsing,
    control: Option<Word>,
    conditions: Seq<ExprId>,
    branches: Seq<ExprId>,
    inner: Word,
    label: Option<Word>,
    depth: int,
)
    ensures
        parsed_inner_branches(p, control, conditions, branches, inner, label, depth) == ({
            if is_text(control, "if"@) {
                if conditions.len() >= MAX_LOOP_BREAK_BRANCHES {
                    Err(error_at(p, ExpressionErrorKind::TooManyLoopBreakBranches, control))
                } else {
                    match parsed_exit(
                        p,
                        Some(inner),
                        label,
                        Some(ValueLoopControlTarget::Enclosing),
                        depth,
                    ) {
                        Err(error) => Err(error),
                        Ok((q, (condition, branch))) => match take(q) {
                            Err(error) => Err(error),
                            Ok((q, next)) => {
                                let conditions = conditions.push(condition);
                                let branches = branches.push(branch);
                                if !is_text(next, "else"@) {
                                    if advances(p, q) {
                                        parsed_inner_branches(
                                            q,
                                            next,
                                            conditions,
                                            branches,
                                            inner,
                                            label,
                                            depth,
                                        )
                                    } else {
                                        Err(broken_tree(q))
                                    }
                                } else {
                                    match take(q) {
                                        Err(error) => Err(error),
                                        Ok((q, alternative)) => if is_text(alternative, "if"@) {
                                            if advances(p, q) {
                                                parsed_inner_branches(
                                                    q,
                                                    alternative,
                                                    conditions,
                                                    branches,
                                                    inner,
                                                    label,
                                                    depth,
                                                )
                                            } else {
                                                Err(broken_tree(q))
                                            }
                                        } else if !is_kind(alternative, TokenKind::OpenBrace) {
                                            Err(
                                                error_at(
                                                    q,
                                                    ExpressionErrorKind::ExpectedOpenBrace,
                                                    alternative,
                                                ),
                                            )
                                        } else {
                                            match parsed_braced_break(
                                                q,
                                                Some(inner),
                                                label,
                                                Some(ValueLoopControlTarget::Current),
                                                depth,
                                            ) {
                                                Err(error) => Err(error),
                                                Ok((q, operand)) => match expect_kind(
                                                    q,
                                                    TokenKind::CloseBrace,
                                                    ExpressionErrorKind::ExpectedCloseBrace,
                                                ) {
                                                    Err(error) => Err(error),
                                                    Ok((q, _)) => Ok(
                                                        (q, InnerExits { conditions, branches, operand }),
                                                    ),
                                                },
                                            }
                                        },
                                    }
                                }
                            },
                        },
                    }
                }
            } else if !is_text(control, "break"@) {
                Err(error_at(p, ExpressionErrorKind::ExpectedExpression, control))
            } else {
                match expect_break_target(
                    p,
                    Some(inner),
                    label,
                    ValueLoopControlTarget::Current,
                    control,
                ) {
                    Err(error) => Err(error),
                    Ok(q) => match parsed_break_operand(q, depth + 1) {
                        Err(error) => Err(error),
                        Ok((q, operand)) => match expect_kind(
                            q,
                            TokenKind::CloseBrace,
                            ExpressionErrorKind::ExpectedCloseBrace,
                        ) {
                            Err(error) => Err(error),
                            Ok((q, _)) => Ok((q, InnerExits { conditions, branches, operand })),
                        },
                    },
                }
            }
        }),
{
    reveal(parsed_inner_branches);
    reveal(parsed_braced_break);
    reveal(parsed_break_operand);
    reveal(parsed_exit);
}

pub proof fn parsed_last_exit_rule(p: Parsing, label: Option<Word>, depth: int)
    ensures
        parsed_last_exit(p, label, depth) == ({
            match expect_text(p, "break"@, ExpressionErrorKind::ExpectedExpression) {
                Err(error) => Err(error),
                Ok((p, outer_break)) => match expect_break_target(
                    p,
                    label,
                    None,
                    ValueLoopControlTarget::Current,
                    Some(outer_break),
                ) {
                    Err(error) => Err(error),
                    Ok(p) => match parsed_break_operand(p, depth + 1) {
                        Err(error) => Err(error),
                        Ok((p, operand)) => match expect_kind(
                            p,
                            TokenKind::CloseBrace,
                            ExpressionErrorKind::ExpectedCloseBrace,
                        ) {
                            Err(error) => Err(error),
                            Ok((p, close)) => Ok((p, (operand, close))),
                        },
                    },
                },
            }
        }),
{
    reveal(parsed_last_exit);
    reveal(parsed_break_operand);
}

pub proof fn parsed_outer_exit_rule(
    p: Parsing,
    exits: InnerExits,
    word: Word,
    label: Option<Word>,
    depth: int,
)
    ensures
        parsed_outer_exit(p, exits, word, label, depth) == ({
            match expect_kind(p, TokenKind::Semicolon, ExpressionErrorKind::TrailingToken) {
                Err(error) => Err(error),
                Ok((p, _)) => match parsed_last_exit(p, label, depth) {
                    Err(error) => Err(error),
                    Ok((p, (fallback, close))) => {
                        let span = Span { start: loop_start(word, label), end: close.span.end };
                        match push_node(
                            p,
                            Form::Sequence { first: exits.operand, then: fallback },
                            span,
                        ) {
                            Err(error) => Err(error),
                            Ok((p, otherwise)) => loop_exits(
                                p,
                                exits.conditions,
                                exits.branches,
                                exits.conditions.len() as int,
                                otherwise,
                                span,
                            ),
                        }
                    },
                },
            }
        }),
{
    reveal(parsed_outer_exit);
    reveal(parsed_last_exit);
}

pub proof fn parsed_while_rule(p: Parsing, word: Word, label: Option<Word>, inner: Option<Word>, depth: int)
    ensures
        parsed_while(p, word, label, inner, depth) == ({
            if level_refused(depth) {
                Err(error_at(p, ExpressionErrorKind::NestingLimitExceeded, Some(word)))
            } else {
                match expect_text(p, "break"@, ExpressionErrorKind::ExpectedExpression) {
                    Err(error) => Err(error),
                    Ok((p, break_word)) => match parsed_break_target(p, inner, label) {
                        Err(error) => Err(error),
                        Ok((p, target)) => match parsed_condition_operand(p, depth + 1) {
                            Err(error) => Err(error),
                            Ok((p, operand)) => if target == ValueLoopControlTarget::Current && !unit_form(
                                p.nodes,
                                operand,
                                depth + 1,
                            ) {
                                Err(
                                    error_at(
                                        p,
                                        ExpressionErrorKind::InvalidLoopBreakTarget,
                                        Some(break_word),
                                    ),
                                )
                            } else {
                                match expect_kind(
                                    p,
                                    TokenKind::OpenBrace,
                                    ExpressionErrorKind::ExpectedOpenBrace,
                                ) {
                                    Err(error) => Err(error),
                                    Ok((p, _)) => match skipped_body(p, 1) {
                                        Err(error) => Err(error),
                                        Ok(p) => if target == ValueLoopControlTarget::Enclosing {
                                            match expect_kind(
                                                p,
                                                TokenKind::CloseBrace,
                                                ExpressionErrorKind::ExpectedCloseBrace,
                                            ) {
                                                Err(error) => Err(error),
                                                Ok((p, close)) => push_node(
                                                    p,
                                                    Form::LoopBreak { operand },
                                                    Span {
                                                        start: loop_start(word, label),
                                                        end: close.span.end,
                                                    },
                                                ),
                                            }
                                        } else {
                                            match parsed_last_exit(p, label, depth) {
                                                Err(error) => Err(error),
                                                Ok((p, (fallback, close))) => push_node(
                                                    p,
                                                    Form::Sequence { first: operand, then: fallback },
                                                    Span {
                                                        start: loop_start(word, label),
                                                        end: close.span.end,
                                                    },
                                                ),
                                            }
                                        },
                                    },
                                }
                            },
                        },
                    },
                }
            }
        }),
{
    reveal(parsed_while);
    reveal(parsed_condition_operand);
    reveal(parsed_last_exit);
}

} // verus!
