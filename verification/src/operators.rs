//! What the signs of operators stand for.
use crate::expression::{
    ConstantResolver, ExprId, ExpressionError, Form, Node, Tree, evaluation, node_at,
};
use crate::grammar::{
    Binding, Parsing, Word, annotated, assigned_form, assignment_operator, expression_tree,
    first_state, front, next_reads, operator_named, parsed_cast, parsed_casts,
    parsed_expression, parsed_operators, peek, prefix_operator, push_integer, take,
};
use crate::rules::{
    parsed_atom_from_rule, parsed_atom_rule, parsed_cast_rule, parsed_expression_rule,
    parsed_operators_rule, parsed_postfix_rule, parsed_suffixes_rule, parsed_unary_rule,
};
use crate::integer::{
    BinaryOperator, ConstEvalError, binary_value,
};
use crate::literal::integer_literal;
use crate::token::{
    Span, TokenKind, is_digit,
};
use vstd::prelude::*;

verus! {

/// Whether an operator multiplies or divides.
pub open spec fn is_product(operator: BinaryOperator) -> bool {
    operator == BinaryOperator::Multiply || operator == BinaryOperator::Divide || operator
        == BinaryOperator::Remainder
}

/// Whether an operator adds or subtracts.
pub open spec fn is_sum(operator: BinaryOperator) -> bool {
    operator == BinaryOperator::Add || operator == BinaryOperator::Subtract
}

pub open spec fn is_shift(operator: BinaryOperator) -> bool {
    operator == BinaryOperator::ShiftLeft || operator == BinaryOperator::ShiftRight
}

/// Whether an operator asks which of two values is greater.
pub open spec fn is_order(operator: BinaryOperator) -> bool {
    operator == BinaryOperator::Less || operator == BinaryOperator::LessEqual || operator
        == BinaryOperator::Greater || operator == BinaryOperator::GreaterEqual
}

pub open spec fn is_equality(operator: BinaryOperator) -> bool {
    operator == BinaryOperator::Equal || operator == BinaryOperator::NotEqual
}

/// Whether an operator is bitwise `&`, or binds tighter.
pub open spec fn above_bits(operator: BinaryOperator) -> bool {
    is_product(operator) || is_sum(operator) || is_shift(operator) || is_order(operator)
        || is_equality(operator)
}

/// Whether the second of two operators binds tighter than the first: products before sums, sums
/// before shifts, those before comparisons, comparisons before bits, and bits before logic.
pub open spec fn binds_tighter(first: BinaryOperator, second: BinaryOperator) -> bool {
    if is_product(first) {
        false
    } else if is_sum(first) {
        is_product(second)
    } else if is_shift(first) {
        is_product(second) || is_sum(second)
    } else if is_order(first) {
        is_product(second) || is_sum(second) || is_shift(second)
    } else if is_equality(first) {
        is_product(second) || is_sum(second) || is_shift(second) || is_order(second)
    } else if first == BinaryOperator::BitAnd {
        above_bits(second)
    } else if first == BinaryOperator::BitXor {
        above_bits(second) || second == BinaryOperator::BitAnd
    } else if first == BinaryOperator::BitOr {
        above_bits(second) || second == BinaryOperator::BitAnd || second == BinaryOperator::BitXor
    } else if first == BinaryOperator::LogicalAnd {
        second != BinaryOperator::LogicalAnd && second != BinaryOperator::LogicalOr
    } else {
        second != BinaryOperator::LogicalOr
    }
}

/// The value of a sign between two numbers: the number that it stands for in arithmetic, if that is
/// one.
pub open spec fn sign_value(sign: Seq<char>, left: u128, right: u128) -> Option<int> {
    if sign == "+"@ {
        Some(left + right)
    } else if sign == "-"@ {
        Some(left - right)
    } else if sign == "*"@ {
        Some(left * right)
    } else if sign == "/"@ {
        if right == 0 {
            None
        } else {
            Some(left as int / right as int)
        }
    } else if sign == "%"@ {
        if right == 0 {
            None
        } else {
            Some(left - (left as int / right as int) * right)
        }
    } else if sign == "<<"@ {
        if right >= 128 {
            None
        } else {
            Some((left << right) as int)
        }
    } else if sign == ">>"@ {
        if right >= 128 {
            None
        } else {
            Some((left >> right) as int)
        }
    } else if sign == "&"@ {
        Some((left & right) as int)
    } else if sign == "|"@ {
        Some((left | right) as int)
    } else if sign == "^"@ {
        Some((left ^ right) as int)
    } else {
        let holds = if sign == "=="@ {
            left == right
        } else if sign == "!="@ {
            left != right
        } else if sign == "<"@ {
            left < right
        } else if sign == "<="@ {
            left <= right
        } else if sign == ">"@ {
            left > right
        } else if sign == ">="@ {
            left >= right
        } else if sign == "&&"@ {
            left != 0 && right != 0
        } else {
            left != 0 || right != 0
        };
        Some(
            if holds {
                1
            } else {
                0
            },
        )
    }
}

/// The texts of signs.
proof fn signs_are_spelled()
    ensures
        "||"@.len() == 2 && "||"@[0] == '|' && "||"@[1] == '|',
        "&&"@.len() == 2 && "&&"@[0] == '&' && "&&"@[1] == '&',
        "|"@.len() == 1 && "|"@[0] == '|',
        "^"@.len() == 1 && "^"@[0] == '^',
        "&"@.len() == 1 && "&"@[0] == '&',
        "=="@.len() == 2 && "=="@[0] == '=' && "=="@[1] == '=',
        "!="@.len() == 2 && "!="@[0] == '!' && "!="@[1] == '=',
        "<"@.len() == 1 && "<"@[0] == '<',
        "<="@.len() == 2 && "<="@[0] == '<' && "<="@[1] == '=',
        ">"@.len() == 1 && ">"@[0] == '>',
        ">="@.len() == 2 && ">="@[0] == '>' && ">="@[1] == '=',
        "<<"@.len() == 2 && "<<"@[0] == '<' && "<<"@[1] == '<',
        ">>"@.len() == 2 && ">>"@[0] == '>' && ">>"@[1] == '>',
        "+"@.len() == 1 && "+"@[0] == '+',
        "-"@.len() == 1 && "-"@[0] == '-',
        "*"@.len() == 1 && "*"@[0] == '*',
        "/"@.len() == 1 && "/"@[0] == '/',
        "%"@.len() == 1 && "%"@[0] == '%',
        "as"@.len() == 2 && "as"@[0] == 'a' && "as"@[1] == 's',
        "="@.len() == 1 && "="@[0] == '=',
        "+="@.len() == 2 && "+="@[0] == '+' && "+="@[1] == '=',
        "-="@.len() == 2 && "-="@[0] == '-' && "-="@[1] == '=',
        "*="@.len() == 2 && "*="@[0] == '*' && "*="@[1] == '=',
        "/="@.len() == 2 && "/="@[0] == '/' && "/="@[1] == '=',
        "%="@.len() == 2 && "%="@[0] == '%' && "%="@[1] == '=',
        "&="@.len() == 2 && "&="@[0] == '&' && "&="@[1] == '=',
        "|="@.len() == 2 && "|="@[0] == '|' && "|="@[1] == '=',
        "^="@.len() == 2 && "^="@[0] == '^' && "^="@[1] == '=',
        "<<="@.len() == 3 && "<<="@[0] == '<' && "<<="@[1] == '<' && "<<="@[2] == '=',
        ">>="@.len() == 3 && ">>="@[0] == '>' && ">>="@[1] == '>' && ">>="@[2] == '=',
{
    reveal_strlit("||");
    reveal_strlit("&&");
    reveal_strlit("|");
    reveal_strlit("^");
    reveal_strlit("&");
    reveal_strlit("==");
    reveal_strlit("!=");
    reveal_strlit("<");
    reveal_strlit("<=");
    reveal_strlit(">");
    reveal_strlit(">=");
    reveal_strlit("<<");
    reveal_strlit(">>");
    reveal_strlit("+");
    reveal_strlit("-");
    reveal_strlit("*");
    reveal_strlit("/");
    reveal_strlit("%");
    reveal_strlit("as");
    reveal_strlit("=");
    reveal_strlit("+=");
    reveal_strlit("-=");
    reveal_strlit("*=");
    reveal_strlit("/=");
    reveal_strlit("%=");
    reveal_strlit("&=");
    reveal_strlit("|=");
    reveal_strlit("^=");
    reveal_strlit("<<=");
    reveal_strlit(">>=");
}

/// Of two operators the one with the greater precedence is the one that binds tighter.
pub proof fn precedence_is_how_tightly_operators_bind(first: Seq<char>, second: Seq<char>)
    ensures
        match (operator_named(first), operator_named(second)) {
            (Some((loose, low)), Some((tight, high))) => low < high <==> binds_tighter(
                loose,
                tight,
            ),
            _ => true,
        },
{
}

/// The sign of a compound assignment is the sign of its operator with an equals sign behind it.
pub proof fn compound_signs_are_operators_with_an_equals_sign(sign: Seq<char>)
    ensures
        assignment_operator(sign) matches Some(operator) ==> {
            &&& sign.len() > 0
            &&& sign.last() == '='
            &&& operator_named(sign.drop_last()) matches Some((named, _)) && named == operator
        },
        match operator_named(sign) {
            Some((operator, _)) => (is_product(operator) || is_sum(operator) || is_shift(operator)
                || operator == BinaryOperator::BitAnd || operator == BinaryOperator::BitOr
                || operator == BinaryOperator::BitXor) ==> assignment_operator(sign.push('='))
                == Some(operator),
            None => true,
        },
{
    signs_are_spelled();
    let plain = sign.drop_last();
    if assignment_operator(sign) is Some {
        assert(plain.len() == sign.len() - 1);
        assert(plain[0] == sign[0]);
        if sign.len() == 2 {
            spelled_once(plain);
        } else {
            assert(plain[1] == sign[1]);
            spelled_twice(plain);
        }
    }
    let compound = sign.push('=');
    if operator_named(sign) is Some {
        assert(compound[0] == sign[0]);
        assert(compound.last() == '=');
        if sign.len() == 1 {
            assert(compound[1] == '=');
            spelled_twice(compound);
        } else {
            assert(compound[1] == sign[1]);
            assert(compound[2] == '=');
            assert(compound[0] == '<' && compound[1] == '<' ==> compound =~= "<<="@);
            assert(compound[0] == '>' && compound[1] == '>' ==> compound =~= ">>="@);
        }
    }
}

/// A sign of one character is the one that the character spells.
proof fn spelled_once(sign: Seq<char>)
    requires
        sign.len() == 1,
    ensures
        sign[0] == '|' ==> sign == "|"@,
        sign[0] == '^' ==> sign == "^"@,
        sign[0] == '&' ==> sign == "&"@,
        sign[0] == '<' ==> sign == "<"@,
        sign[0] == '>' ==> sign == ">"@,
        sign[0] == '+' ==> sign == "+"@,
        sign[0] == '-' ==> sign == "-"@,
        sign[0] == '*' ==> sign == "*"@,
        sign[0] == '/' ==> sign == "/"@,
        sign[0] == '%' ==> sign == "%"@,
        sign[0] == '=' ==> sign == "="@,
{
    signs_are_spelled();
    if sign[0] == '|' {
        assert(sign =~= "|"@);
    }
    if sign[0] == '^' {
        assert(sign =~= "^"@);
    }
    if sign[0] == '&' {
        assert(sign =~= "&"@);
    }
    if sign[0] == '<' {
        assert(sign =~= "<"@);
    }
    if sign[0] == '>' {
        assert(sign =~= ">"@);
    }
    if sign[0] == '+' {
        assert(sign =~= "+"@);
    }
    if sign[0] == '-' {
        assert(sign =~= "-"@);
    }
    if sign[0] == '*' {
        assert(sign =~= "*"@);
    }
    if sign[0] == '/' {
        assert(sign =~= "/"@);
    }
    if sign[0] == '%' {
        assert(sign =~= "%"@);
    }
    if sign[0] == '=' {
        assert(sign =~= "="@);
    }
}

/// A sign of two characters is the one that they spell.
proof fn spelled_twice(sign: Seq<char>)
    requires
        sign.len() == 2,
    ensures
        sign[0] == '|' && sign[1] == '|' ==> sign == "||"@,
        sign[0] == '&' && sign[1] == '&' ==> sign == "&&"@,
        sign[0] == '=' && sign[1] == '=' ==> sign == "=="@,
        sign[0] == '!' && sign[1] == '=' ==> sign == "!="@,
        sign[0] == '<' && sign[1] == '=' ==> sign == "<="@,
        sign[0] == '>' && sign[1] == '=' ==> sign == ">="@,
        sign[0] == '<' && sign[1] == '<' ==> sign == "<<"@,
        sign[0] == '>' && sign[1] == '>' ==> sign == ">>"@,
        sign[0] == 'a' && sign[1] == 's' ==> sign == "as"@,
        sign[0] == '+' && sign[1] == '=' ==> sign == "+="@,
        sign[0] == '-' && sign[1] == '=' ==> sign == "-="@,
        sign[0] == '*' && sign[1] == '=' ==> sign == "*="@,
        sign[0] == '/' && sign[1] == '=' ==> sign == "/="@,
        sign[0] == '%' && sign[1] == '=' ==> sign == "%="@,
        sign[0] == '&' && sign[1] == '=' ==> sign == "&="@,
        sign[0] == '|' && sign[1] == '=' ==> sign == "|="@,
        sign[0] == '^' && sign[1] == '=' ==> sign == "^="@,
{
    signs_are_spelled();
    if sign[0] == '|' && sign[1] == '|' {
        assert(sign =~= "||"@);
    }
    if sign[0] == '&' && sign[1] == '&' {
        assert(sign =~= "&&"@);
    }
    if sign[0] == '=' && sign[1] == '=' {
        assert(sign =~= "=="@);
    }
    if sign[0] == '!' && sign[1] == '=' {
        assert(sign =~= "!="@);
    }
    if sign[0] == '<' && sign[1] == '=' {
        assert(sign =~= "<="@);
    }
    if sign[0] == '>' && sign[1] == '=' {
        assert(sign =~= ">="@);
    }
    if sign[0] == '<' && sign[1] == '<' {
        assert(sign =~= "<<"@);
    }
    if sign[0] == '>' && sign[1] == '>' {
        assert(sign =~= ">>"@);
    }
    if sign[0] == 'a' && sign[1] == 's' {
        assert(sign =~= "as"@);
    }
    if sign[0] == '+' && sign[1] == '=' {
        assert(sign =~= "+="@);
    }
    if sign[0] == '-' && sign[1] == '=' {
        assert(sign =~= "-="@);
    }
    if sign[0] == '*' && sign[1] == '=' {
        assert(sign =~= "*="@);
    }
    if sign[0] == '/' && sign[1] == '=' {
        assert(sign =~= "/="@);
    }
    if sign[0] == '%' && sign[1] == '=' {
        assert(sign =~= "%="@);
    }
    if sign[0] == '&' && sign[1] == '=' {
        assert(sign =~= "&="@);
    }
    if sign[0] == '|' && sign[1] == '=' {
        assert(sign =~= "|="@);
    }
    if sign[0] == '^' && sign[1] == '=' {
        assert(sign =~= "^="@);
    }
}

/// The operator that a sign names.
pub open spec fn operator_of(sign: Seq<char>) -> BinaryOperator {
    match operator_named(sign) {
        Some((operator, _)) => operator,
        None => BinaryOperator::LogicalOr,
    }
}

/// Whether a word is a number.
pub open spec fn is_number(word: Word) -> bool {
    &&& word.kind == TokenKind::Integer
    &&& word.text.len() > 0
    &&& is_digit(word.text[0])
}

/// Whether a word is the sign of an operator between two values.
pub open spec fn is_sign(word: Word) -> bool {
    word.kind == TokenKind::Operator && operator_named(word.text) is Some
}

/// The number that a word stands for.
pub open spec fn number_of(word: Word) -> u128 {
    integer_literal(word.text)->Ok_0.0
}

/// Whether a node holds the number that a word stands for.
pub open spec fn holds_number(tree: Tree, id: ExprId, word: Word) -> bool {
    node_at(tree.nodes, id) matches Some(node) && node.form matches Form::Integer { value, .. }
        && value == number_of(word)
}

/// Whether a node holds an operation.
pub open spec fn holds_operation(
    tree: Tree,
    id: ExprId,
    operator: BinaryOperator,
    left: ExprId,
    right: ExprId,
) -> bool {
    node_at(tree.nodes, id) matches Some(node) && node.form == (Form::Binary {
        operator,
        left,
        right,
    })
}

/// Whether a state has a number in front, and behind it a sign or nothing.
spec fn number_in_front(p: Parsing) -> bool {
    &&& p.failure is None
    &&& 0 <= p.position < p.words.len()
    &&& is_number(p.words[p.position])
    &&& p.position + 1 < p.words.len() ==> is_sign(p.words[p.position + 1])
}

/// What is left where the number in front has been read.
spec fn behind_number(p: Parsing) -> Parsing {
    let q = Parsing { position: p.position + 1, looked: p.position + 1 < p.words.len(), ..p };
    let (value, suffix) = integer_literal(p.words[p.position].text)->Ok_0;
    Parsing {
        nodes: p.nodes.push(
            Some(
                Node {
                    form: Form::Integer { value, suffix },
                    span: p.words[p.position].span,
                },
            ),
        ),
        ..q
    }
}

/// A number in front is an operand by itself.
proof fn number_is_an_operand(p: Parsing, depth: int)
    requires
        number_in_front(p),
        integer_literal(p.words[p.position].text) is Ok,
        p.nodes.len() < p.limit,
        depth + 2 < 64,
    ensures
        parsed_cast(p, depth) == Ok::<(Parsing, ExprId), ExpressionError>(
            (behind_number(p), ExprId(p.nodes.len() as usize)),
        ),
{
    let word = p.words[p.position];
    signs_are_spelled();
    reveal_strlit("break");
    reveal_strlit("!");
    assert("break"@[0] == 'b' && "!"@[0] == '!');
    let q = peek(p)->Ok_0;
    let r = take(q)->Ok_0.0;
    assert(front(q) == Some(word));
    assert(r == (Parsing { position: p.position + 1, looked: false, ..p }));
    assert(prefix_operator(word.text) is None);
    parsed_cast_rule(p, depth);
    parsed_unary_rule(p, depth + 1);
    parsed_postfix_rule(q, depth + 2);
    parsed_atom_rule(q, depth + 2);
    parsed_atom_from_rule(r, word, depth + 2);
    let id = ExprId(p.nodes.len() as usize);
    let z = push_integer(r, word)->Ok_0.0;
    parsed_suffixes_rule(z, id, depth + 2);
    let e = behind_number(p);
    assert(peek(z)->Ok_0 == e);
    assert(peek(e) == Ok::<Parsing, ExpressionError>(e));
    if p.position + 1 < p.words.len() {
        assert(front(e) == Some(p.words[p.position + 1]));
        assert(p.words[p.position + 1].text != "as"@);
    }
    assert(next_reads(e, "as"@) == Ok::<(Parsing, bool), ExpressionError>((e, false)));
    assert(parsed_casts(e, id) == Ok::<(Parsing, ExprId), ExpressionError>((e, id)));
}

/// Behind the last number there is no more operator.
proof fn nothing_behind_the_last_number(p: Parsing, left: ExprId, minimum: int, depth: int)
    requires
        p.failure is None,
        p.position >= p.words.len(),
        depth < 64,
    ensures
        parsed_operators(p, left, minimum, depth) == Ok::<(Parsing, ExprId), ExpressionError>(
            (peek(p)->Ok_0, left),
        ),
        peek(p) is Ok,
{
    parsed_operators_rule(p, left, minimum, depth);
}

/// Whether a text is a row of numbers with signs between them, and there is room for its tree.
pub open spec fn is_row(text: Seq<char>, limit: int, count: int) -> bool {
    let p = first_state(text, limit);
    &&& p.failure is None
    &&& p.words.len() == count
    &&& count <= limit <= usize::MAX
    &&& forall|i: int| #![trigger p.words[i]]
        0 <= i < count ==> if i % 2 == 0 {
            is_number(p.words[i]) && integer_literal(p.words[i].text) is Ok
        } else {
            is_sign(p.words[i])
        }
}

/// The beginning of a row: its first number is an operand.
proof fn row_begins(text: Seq<char>, limit: int, count: int)
    requires
        is_row(text, limit, count),
        count >= 1,
    ensures
        ({
            let p = Parsing { looked: true, ..first_state(text, limit) };
            &&& number_in_front(p)
            &&& next_reads(first_state(text, limit), "return"@) == Ok::<
                (Parsing, bool),
                ExpressionError,
            >((p, false))
            &&& parsed_expression(p, 0, 0) == parsed_operators(behind_number(p), ExprId(0), 0, 0)
        }),
{
    let p = Parsing { looked: true, ..first_state(text, limit) };
    reveal_strlit("return");
    assert("return"@[0] == 'r');
    assert(is_number(p.words[0]));
    if count > 1 {
        assert(is_sign(p.words[1]));
    }
    assert(peek(first_state(text, limit)) == Ok::<Parsing, ExpressionError>(p));
    parsed_expression_rule(p, 0, 0);
    number_is_an_operand(p, 1);
}

/// The sign between two numbers gives what it stands for in arithmetic: the value of the text is
/// that number, and where there is no such number or it is too large there is no value.
pub proof fn a_sign_between_two_numbers_gives_its_value<R: ConstantResolver>(
    text: Seq<char>,
    limit: int,
    resolver: &R,
)
    requires
        is_row(text, limit, 3),
    ensures
        expression_tree(text, limit) is Ok,
        ({
            let words = first_state(text, limit).words;
            let tree = expression_tree(text, limit)->Ok_0;
            let value = evaluation(tree.nodes, resolver, tree.root, 0);
            match sign_value(words[1].text, number_of(words[0]), number_of(words[2])) {
                Some(number) => if 0 <= number <= u128::MAX {
                    value == Ok::<u128, ConstEvalError>(number as u128)
                } else {
                    value == Err::<u128, ConstEvalError>(ConstEvalError::Overflow)
                },
                None => value is Err,
            }
        }),
{
    let p = Parsing { looked: true, ..first_state(text, limit) };
    let words = p.words;
    assert(is_number(words[0]) && is_sign(words[1]) && is_number(words[2]));
    row_begins(text, limit, 3);
    let e1 = behind_number(p);
    let (operator, precedence) = operator_named(words[1].text)->0;
    parsed_operators_rule(e1, ExprId(0), 0, 0);
    assert(front(e1) == Some(words[1]));
    let t1 = take(e1)->Ok_0.0;
    parsed_expression_rule(t1, precedence + 1, 1);
    number_is_an_operand(t1, 2);
    let e2 = behind_number(t1);
    nothing_behind_the_last_number(e2, ExprId(1), precedence + 1, 1);
    let tree = expression_tree(text, limit)->Ok_0;
    let z = Parsing {
        nodes: e2.nodes.push(
            Some(
                Node {
                    form: Form::Binary { operator, left: ExprId(0), right: ExprId(1) },
                    span: Span { start: words[0].span.start, end: words[2].span.end },
                },
            ),
        ),
        ..e2
    };
    nothing_behind_the_last_number(z, ExprId(2), 0, 0);
    assert(tree.nodes == z.nodes && tree.root == ExprId(2));
    assert(node_at(tree.nodes, ExprId(2)) == z.nodes[2]);
    assert(node_at(tree.nodes, ExprId(0)) == e1.nodes[0]);
    assert(node_at(tree.nodes, ExprId(1)) == e2.nodes[1]);
    let a = number_of(words[0]);
    let b = number_of(words[2]);
    assert(evaluation(tree.nodes, resolver, ExprId(0), 1) == Ok::<u128, ConstEvalError>(a));
    assert(evaluation(tree.nodes, resolver, ExprId(1), 1) == Ok::<u128, ConstEvalError>(b));
    signs_are_spelled();
    sign_values_are_those_of_operators(words[1].text, a, b);
    assert(a * b >= 0) by (nonlinear_arith)
        requires
            a >= 0,
            b >= 0,
    ;
}

/// The values of signs are those of the operators that they name.
proof fn sign_values_are_those_of_operators(sign: Seq<char>, left: u128, right: u128)
    requires
        operator_named(sign) is Some,
    ensures
        match sign_value(sign, left, right) {
            Some(number) => binary_value(operator_of(sign), left, right) == if 0 <= number
                <= u128::MAX {
                Ok::<u128, ConstEvalError>(number as u128)
            } else {
                Err(ConstEvalError::Overflow)
            },
            None => binary_value(operator_of(sign), left, right) is Err,
        },
{
    signs_are_spelled();
    assert(left * right >= 0) by (nonlinear_arith)
        requires
            left >= 0,
            right >= 0,
    ;
    if right != 0 {
        let l = left as int;
        let r = right as int;
        assert(l - (l / r) * r == l % r) by (nonlinear_arith)
            requires
                r > 0,
        ;
        assert(0 <= l / r <= l) by (nonlinear_arith)
            requires
                r > 0,
                l >= 0,
        ;
        assert(0 <= l % r < r) by (nonlinear_arith)
            requires
                r > 0,
        ;
    }
}

/// Of two signs between three numbers the one that binds tighter takes its two numbers first; where
/// neither does, the first one does.
pub proof fn the_tighter_of_two_signs_comes_first(text: Seq<char>, limit: int)
    requires
        is_row(text, limit, 5),
    ensures
        expression_tree(text, limit) is Ok,
        ({
            let words = first_state(text, limit).words;
            let tree = expression_tree(text, limit)->Ok_0;
            let first = operator_of(words[1].text);
            let second = operator_of(words[3].text);
            exists|a: ExprId, b: ExprId, c: ExprId, inner: ExprId| #![trigger holds_number(tree, a, words[0]), holds_number(tree, b, words[2]), holds_number(tree, c, words[4]), node_at(tree.nodes, inner)]
                {
                    &&& holds_number(tree, a, words[0])
                    &&& holds_number(tree, b, words[2])
                    &&& holds_number(tree, c, words[4])
                    &&& if binds_tighter(first, second) {
                        holds_operation(tree, inner, second, b, c) && holds_operation(
                            tree,
                            tree.root,
                            first,
                            a,
                            inner,
                        )
                    } else {
                        holds_operation(tree, inner, first, a, b) && holds_operation(
                            tree,
                            tree.root,
                            second,
                            inner,
                            c,
                        )
                    }
                }
        }),
{
    let p = Parsing { looked: true, ..first_state(text, limit) };
    let words = p.words;
    assert(is_number(words[0]) && is_sign(words[1]) && is_number(words[2]) && is_sign(words[3])
        && is_number(words[4]));
    row_begins(text, limit, 5);
    let e1 = behind_number(p);
    let (first, low) = operator_named(words[1].text)->0;
    let (second, high) = operator_named(words[3].text)->0;
    precedence_is_how_tightly_operators_bind(words[1].text, words[3].text);
    parsed_operators_rule(e1, ExprId(0), 0, 0);
    assert(front(e1) == Some(words[1]));
    let t1 = take(e1)->Ok_0.0;
    parsed_expression_rule(t1, low + 1, 1);
    number_is_an_operand(t1, 2);
    let e2 = behind_number(t1);
    assert(front(e2) == Some(words[3]));
    parsed_operators_rule(e2, ExprId(1), low + 1, 1);
    let tree = expression_tree(text, limit)->Ok_0;
    if binds_tighter(first, second) {
        let t2 = take(e2)->Ok_0.0;
        parsed_expression_rule(t2, high + 1, 2);
        number_is_an_operand(t2, 3);
        let e3 = behind_number(t2);
        nothing_behind_the_last_number(e3, ExprId(2), high + 1, 2);
        let y = with_operation(e3, second, ExprId(1), ExprId(2), words[2].span.start, words[4].span.end);
        nothing_behind_the_last_number(y, ExprId(3), low + 1, 1);
        let z = with_operation(y, first, ExprId(0), ExprId(3), words[0].span.start, words[4].span.end);
        nothing_behind_the_last_number(z, ExprId(4), 0, 0);
        assert(tree.nodes == z.nodes && tree.root == ExprId(4));
        assert(holds_number(tree, ExprId(0), words[0]));
        assert(holds_number(tree, ExprId(1), words[2]));
        assert(holds_number(tree, ExprId(2), words[4]));
        assert(node_at(tree.nodes, ExprId(3)) is Some);
        assert(holds_operation(tree, ExprId(3), second, ExprId(1), ExprId(2)));
        assert(holds_operation(tree, ExprId(4), first, ExprId(0), ExprId(3)));
    } else {
        let y = with_operation(e2, first, ExprId(0), ExprId(1), words[0].span.start, words[2].span.end);
        parsed_operators_rule(y, ExprId(2), 0, 0);
        assert(front(y) == Some(words[3]));
        let t2 = take(y)->Ok_0.0;
        parsed_expression_rule(t2, high + 1, 1);
        number_is_an_operand(t2, 2);
        let e3 = behind_number(t2);
        nothing_behind_the_last_number(e3, ExprId(3), high + 1, 1);
        let z = with_operation(e3, second, ExprId(2), ExprId(3), words[0].span.start, words[4].span.end);
        nothing_behind_the_last_number(z, ExprId(4), 0, 0);
        assert(tree.nodes == z.nodes && tree.root == ExprId(4));
        assert(holds_number(tree, ExprId(0), words[0]));
        assert(holds_number(tree, ExprId(1), words[2]));
        assert(holds_number(tree, ExprId(3), words[4]));
        assert(node_at(tree.nodes, ExprId(2)) is Some);
        assert(holds_operation(tree, ExprId(2), first, ExprId(0), ExprId(1)));
        assert(holds_operation(tree, ExprId(4), second, ExprId(2), ExprId(3)));
    }
}

/// A state with one more operation.
spec fn with_operation(
    p: Parsing,
    operator: BinaryOperator,
    left: ExprId,
    right: ExprId,
    start: usize,
    end: usize,
) -> Parsing {
    Parsing {
        nodes: p.nodes.push(
            Some(Node { form: Form::Binary { operator, left, right }, span: Span { start, end } }),
        ),
        ..p
    }
}

/// A compound assignment stands for the assignment of the operation: the name then stands for the
/// operation of its sign, without the equals sign, on what the name stood for and the value.
pub proof fn a_compound_assignment_operates_on_the_name(
    p: Parsing,
    binding: Binding,
    sign: Seq<char>,
    operator: Word,
    name: Word,
    value: ExprId,
)
    requires
        operator.text == sign.push('='),
        operator_named(sign) is Some,
        assignment_operator(operator.text) is Some,
        binding.annotation is None,
        p.nodes.len() + 2 <= usize::MAX,
    ensures
        match assigned_form(p, binding, operator, name, value) {
            Ok((q, form)) => {
                let old = ExprId(p.nodes.len() as usize);
                &&& form == (Form::Binary {
                    operator: operator_of(sign),
                    left: old,
                    right: value,
                })
                &&& node_at(q.nodes, old) matches Some(node) && node.form == binding.form
                &&& forall|i: int| 0 <= i < p.nodes.len() ==> q.nodes[i] == p.nodes[i]
            },
            Err(_) => true,
        },
{
    reveal(assigned_form);
    reveal(annotated);
    compound_signs_are_operators_with_an_equals_sign(operator.text);
    assert(operator.text.drop_last() =~= sign);
    let old = ExprId(p.nodes.len() as usize);
    if let Ok((q, form)) = assigned_form(p, binding, operator, name, value) {
        assert(q.nodes.len() == p.nodes.len() + 2);
        assert(node_at(q.nodes, old) == q.nodes[p.nodes.len() as int]);
    }
}

} // verus!
