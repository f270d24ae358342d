//! Decoding of integer and character literals.
use crate::expression::{text_view, ExpressionErrorKind, IntegerLiteral};
use crate::integer::{integer_type_named, IntegerType};
use crate::text::characters;
use vstd::prelude::*;
use vstd::string::StrSliceExecFns;

verus! {

/// The number that a digit stands for.
pub open spec fn digit_number(c: char) -> Option<int> {
    if '0' <= c && c <= '9' {
        Some(c as int - '0' as int)
    } else if 'a' <= c && c <= 'z' {
        Some(c as int - 'a' as int + 10)
    } else if 'A' <= c && c <= 'Z' {
        Some(c as int - 'A' as int + 10)
    } else {
        None
    }
}

pub open spec fn is_radix_digit(c: char, radix: int) -> bool {
    digit_number(c) matches Some(number) && number < radix
}

/// The base that a literal is written in.
pub open spec fn literal_radix(text: Seq<char>) -> int {
    if text.len() >= 2 && text[0] == '0' {
        if text[1] == 'x' || text[1] == 'X' {
            16
        } else if text[1] == 'o' || text[1] == 'O' {
            8
        } else if text[1] == 'b' || text[1] == 'B' {
            2
        } else {
            10
        }
    } else {
        10
    }
}

/// Where the digits of a literal start, behind the mark of its base.
pub open spec fn literal_start(text: Seq<char>) -> int {
    if literal_radix(text) == 10 {
        0
    } else {
        2
    }
}

/// The end of the digits and separators from `i` on.
pub open spec fn digits_end(text: Seq<char>, radix: int, i: int) -> int
    decreases text.len() - i,
{
    if 0 <= i < text.len() && (text[i] == '_' || is_radix_digit(text[i], radix)) {
        digits_end(text, radix, i + 1)
    } else {
        i
    }
}

/// The number that the digits in a range are, separators left out.
pub open spec fn digits_number(text: Seq<char>, radix: int, start: int, end: int) -> int
    decreases end - start,
{
    if end <= start {
        0
    } else if text[end - 1] == '_' {
        digits_number(text, radix, start, end - 1)
    } else {
        digits_number(text, radix, start, end - 1) * radix + digit_number(text[end - 1])->0
    }
}

/// How many digits a range has.
pub open spec fn digits_count(text: Seq<char>, start: int, end: int) -> int
    decreases end - start,
{
    if end <= start {
        0
    } else if text[end - 1] == '_' {
        digits_count(text, start, end - 1)
    } else {
        digits_count(text, start, end - 1) + 1
    }
}

/// What an integer literal says: its number and its suffix.
pub open spec fn integer_literal(text: Seq<char>) -> Result<
    (u128, Option<Seq<char>>),
    ExpressionErrorKind,
> {
    let radix = literal_radix(text);
    let start = literal_start(text);
    let end = digits_end(text, radix, start);
    let suffix = text.skip(end);
    if digits_number(text, radix, start, end) > u128::MAX {
        Err(ExpressionErrorKind::IntegerOverflow)
    } else if digits_count(text, start, end) == 0 {
        Err(ExpressionErrorKind::InvalidInteger)
    } else if suffix.len() > 0 && integer_type_named(suffix) is None {
        Err(ExpressionErrorKind::InvalidIntegerSuffix)
    } else {
        Ok(
            (
                digits_number(text, radix, start, end) as u128,
                if suffix.len() > 0 {
                    Some(suffix)
                } else {
                    None
                },
            ),
        )
    }
}

fn digit_value(c: char, radix: u32) -> (result: Option<u32>)
    requires
        radix <= 36,
    ensures
        match result {
            Some(digit) => is_radix_digit(c, radix as int) && digit_number(c) == Some(digit as int)
                && digit < radix,
            None => !is_radix_digit(c, radix as int),
        },
{
    let digit: u32 = if '0' <= c && c <= '9' {
        c as u32 - '0' as u32
    } else if 'a' <= c && c <= 'z' {
        c as u32 - 'a' as u32 + 10
    } else if 'A' <= c && c <= 'Z' {
        c as u32 - 'A' as u32 + 10
    } else {
        return None;
    };
    if digit < radix {
        Some(digit)
    } else {
        None
    }
}

/// More digits make no number smaller.
proof fn digits_number_grows(text: Seq<char>, radix: int, start: int, middle: int, end: int)
    requires
        radix >= 2,
        0 <= start <= middle <= end <= text.len(),
        forall|k: int|
            start <= k < end ==> text[k] == '_' || is_radix_digit(#[trigger] text[k], radix),
    ensures
        0 <= digits_number(text, radix, start, middle) <= digits_number(text, radix, start, end),
    decreases end - start,
{
    if end > start {
        if middle < end {
            digits_number_grows(text, radix, start, middle, end - 1);
        } else {
            digits_number_grows(text, radix, start, end - 1, end - 1);
        }
        let before = digits_number(text, radix, start, end - 1);
        assert(before * radix >= before) by (nonlinear_arith)
            requires
                before >= 0,
                radix >= 2,
        ;
        assert(text[end - 1] == '_' || is_radix_digit(text[end - 1], radix));
    }
}

proof fn digits_end_bounds(text: Seq<char>, radix: int, i: int)
    requires
        0 <= i <= text.len(),
    ensures
        i <= digits_end(text, radix, i) <= text.len(),
        forall|k: int|
            i <= k < digits_end(text, radix, i) ==> text[k] == '_' || is_radix_digit(
                #[trigger] text[k],
                radix,
            ),
    decreases text.len() - i,
{
    if i < text.len() && (text[i] == '_' || is_radix_digit(text[i], radix)) {
        digits_end_bounds(text, radix, i + 1);
    }
}

pub fn decode_integer<'source>(text: &'source str) -> (result: Result<
    IntegerLiteral<'source>,
    ExpressionErrorKind,
>)
    ensures
        match result {
            Ok(literal) => integer_literal(text@) == Ok::<
                (u128, Option<Seq<char>>),
                ExpressionErrorKind,
            >((literal.value, text_view(literal.suffix))),
            Err(kind) => integer_literal(text@) == Err::<
                (u128, Option<Seq<char>>),
                ExpressionErrorKind,
            >(kind),
        },
{
    let c: Vec<char> = characters(text);
    let mut radix: u32 = 10;
    let mut start: usize = 0;
    if c.len() >= 2 && c[0] == '0' {
        if c[1] == 'x' || c[1] == 'X' {
            radix = 16;
            start = 2;
        } else if c[1] == 'o' || c[1] == 'O' {
            radix = 8;
            start = 2;
        } else if c[1] == 'b' || c[1] == 'B' {
            radix = 2;
            start = 2;
        }
    }
    let mut value: u128 = 0;
    let mut some_digit: bool = false;
    let mut position: usize = start;
    let ghost end = digits_end(c@, radix as int, start as int);
    proof {
        digits_end_bounds(c@, radix as int, start as int);
    }
    while position < c.len()
        invariant_except_break
            end == digits_end(c@, radix as int, position as int),
        invariant
            c@ == text@,
            radix == literal_radix(c@),
            start == literal_start(c@),
            radix == 2 || radix == 8 || radix == 10 || radix == 16,
            end == digits_end(c@, radix as int, start as int),
            start <= position <= c.len(),
            start <= end <= c.len(),
            position <= end,
            forall|k: int|
                start <= k < end ==> c@[k] == '_' || is_radix_digit(#[trigger] c@[k], radix as int),
            value == digits_number(c@, radix as int, start as int, position as int),
            some_digit == (digits_count(c@, start as int, position as int) != 0),
            digits_count(c@, start as int, position as int) >= 0,
        ensures
            position == end,
        decreases c.len() - position,
    {
        let here: char = c[position];
        if here == '_' {
            position += 1;
            proof {
                digits_end_bounds(c@, radix as int, position as int);
            }
            continue;
        }
        match digit_value(here, radix) {
            Some(digit) => {
                proof {
                    digits_end_bounds(c@, radix as int, position + 1);
                    digits_number_grows(
                        c@,
                        radix as int,
                        start as int,
                        position + 1,
                        end,
                    );
                    assert(digits_number(c@, radix as int, start as int, position + 1) == value
                        * radix + digit);
                    assert(value * radix >= 0) by (nonlinear_arith)
                        requires
                            value >= 0,
                            radix >= 2,
                    ;
                }
                let scaled: u128 = match value.checked_mul(radix as u128) {
                    Some(scaled) => scaled,
                    None => return Err(ExpressionErrorKind::IntegerOverflow),
                };
                value = match scaled.checked_add(digit as u128) {
                    Some(value) => value,
                    None => return Err(ExpressionErrorKind::IntegerOverflow),
                };
                some_digit = true;
                position += 1;
            },
            None => {
                break;
            },
        }
    }
    if !some_digit {
        return Err(ExpressionErrorKind::InvalidInteger);
    }
    if position == c.len() {
        proof {
            assert(text@.skip(end).len() == 0);
        }
        return Ok(IntegerLiteral { value, suffix: None });
    }
    let suffix: &'source str = text.substring_char(position, c.len());
    proof {
        assert(suffix@ =~= text@.skip(end));
    }
    if IntegerType::from_name(suffix).is_none() {
        return Err(ExpressionErrorKind::InvalidIntegerSuffix);
    }
    Ok(IntegerLiteral { value, suffix: Some(suffix) })
}

/// The digits behind an optional plus sign.
pub open spec fn unsigned_digits(text: Seq<char>) -> Seq<char> {
    if text.len() > 1 && text[0] == '+' {
        text.skip(1)
    } else {
        text
    }
}

pub open spec fn all_hexadecimal(digits: Seq<char>) -> bool {
    forall|k: int| 0 <= k < digits.len() ==> is_radix_digit(#[trigger] digits[k], 16)
}

/// The number that hexadecimal digits are; none where a character is no digit
/// or the number does not fit in 32 bits. A plus sign may stand before them.
pub open spec fn hexadecimal(text: Seq<char>) -> Option<u32> {
    let digits = unsigned_digits(text);
    if digits.len() == 0 || !all_hexadecimal(digits) {
        None
    } else if digits_number(digits, 16, 0, digits.len() as int) > u32::MAX {
        None
    } else {
        Some(digits_number(digits, 16, 0, digits.len() as int) as u32)
    }
}

/// What stands between the backslash and the closing quote.
pub open spec fn escape_value(escaped: Seq<char>) -> Option<u32> {
    if escaped == seq!['0'] {
        Some(0)
    } else if escaped == seq!['t'] {
        Some(9)
    } else if escaped == seq!['n'] {
        Some(10)
    } else if escaped == seq!['r'] {
        Some(13)
    } else if escaped == seq!['\\'] {
        Some(92)
    } else if escaped == seq!['\''] {
        Some(39)
    } else if escaped == seq!['"'] {
        Some(34)
    } else if escaped.len() == 3 && escaped[0] == 'x' {
        hexadecimal(escaped.skip(1))
    } else if escaped.len() >= 3 && escaped[0] == 'u' && escaped[1] == '{' && escaped.last() == '}' {
        match hexadecimal(escaped.subrange(2, escaped.len() - 1)) {
            Some(scalar) => if scalar <= 0x10ffff && !(0xd800 <= scalar <= 0xdfff) {
                Some(scalar)
            } else {
                None
            },
            None => None,
        }
    } else {
        None
    }
}

/// The scalar value of a character literal.
pub open spec fn character_literal(text: Seq<char>) -> Option<u32> {
    if text.len() < 2 || text[0] != '\'' || text.last() != '\'' {
        None
    } else {
        let inner = text.subrange(1, text.len() - 1);
        if inner.len() == 0 {
            None
        } else if inner[0] == '\\' {
            escape_value(inner.skip(1))
        } else if inner.len() == 1 {
            Some(inner[0] as u32)
        } else {
            None
        }
    }
}

/// Decodes the hexadecimal digits in a range of `c`.
fn decode_hexadecimal(c: &Vec<char>, from: usize, to: usize) -> (result: Option<u32>)
    requires
        from <= to <= c.len(),
    ensures
        result == hexadecimal(c@.subrange(from as int, to as int)),
{
    let ghost text = c@.subrange(from as int, to as int);
    let start: usize = if to - from > 1 && c[from] == '+' {
        from + 1
    } else {
        from
    };
    let ghost digits = c@.subrange(start as int, to as int);
    proof {
        if start > from {
            assert(text.skip(1) =~= digits);
        }
        assert(unsigned_digits(text) =~= digits);
    }
    if start == to {
        return None;
    }
    let mut value: u32 = 0;
    let mut overflow: bool = false;
    let mut position: usize = start;
    while position < to
        invariant
            start <= position <= to <= c.len(),
            start < to,
            unsigned_digits(c@.subrange(from as int, to as int)) == digits,
            digits == c@.subrange(start as int, to as int),
            forall|k: int| 0 <= k < position - start ==> is_radix_digit(#[trigger] digits[k], 16),
            !overflow ==> value == digits_number(digits, 16, 0, position - start),
            overflow ==> digits_number(digits, 16, 0, position - start) > u32::MAX,
            digits_number(digits, 16, 0, position - start) >= 0,
        decreases to - position,
    {
        match digit_value(c[position], 16) {
            Some(digit) => {
                assert(digits[position - start] == c@[position as int]);
                if !overflow {
                    match value.checked_mul(16) {
                        Some(scaled) => match scaled.checked_add(digit) {
                            Some(next) => {
                                value = next;
                            },
                            None => {
                                overflow = true;
                            },
                        },
                        None => {
                            overflow = true;
                        },
                    }
                }
                position += 1;
            },
            None => {
                assert(digits[position - start] == c@[position as int]);
                return None;
            },
        }
    }
    if overflow {
        None
    } else {
        Some(value)
    }
}

pub fn decode_character(text: &str) -> (result: Option<u32>)
    ensures
        result == character_literal(text@),
{
    let c: Vec<char> = characters(text);
    let length: usize = c.len();
    if length < 2 || c[0] != '\'' || c[length - 1] != '\'' {
        return None;
    }
    let ghost inner = text@.subrange(1, text@.len() - 1);
    let inner_length: usize = length - 2;
    if inner_length == 0 {
        return None;
    }
    let first: char = c[1];
    assert(inner[0] == first);
    if first != '\\' {
        return if inner_length == 1 {
            Some(first as u32)
        } else {
            None
        };
    }
    let ghost escaped = inner.skip(1);
    let escaped_length: usize = inner_length - 1;
    assert(escaped.len() == escaped_length);
    if escaped_length == 1 {
        let mark: char = c[2];
        assert(escaped[0] == mark);
        assert(escaped =~= seq![mark]);
        proof {
            if escaped == seq!['0'] { assert(escaped[0] == '0'); }
            if escaped == seq!['t'] { assert(escaped[0] == 't'); }
            if escaped == seq!['n'] { assert(escaped[0] == 'n'); }
            if escaped == seq!['r'] { assert(escaped[0] == 'r'); }
            if escaped == seq!['\\'] { assert(escaped[0] == '\\'); }
            if escaped == seq!['\''] { assert(escaped[0] == '\''); }
            if escaped == seq!['"'] { assert(escaped[0] == '"'); }
        }
        return if mark == '0' {
            Some(0)
        } else if mark == 't' {
            Some(9)
        } else if mark == 'n' {
            Some(10)
        } else if mark == 'r' {
            Some(13)
        } else if mark == '\\' {
            Some(92)
        } else if mark == '\'' {
            Some(39)
        } else if mark == '"' {
            Some(34)
        } else {
            None
        };
    }
    proof {
        assert(escaped.len() != 1 ==> escaped != seq!['0'] && escaped != seq!['t'] && escaped
            != seq!['n'] && escaped != seq!['r'] && escaped != seq!['\\'] && escaped != seq!['\'']
            && escaped != seq!['"']);
    }
    if escaped_length == 3 && c[2] == 'x' {
        proof {
            assert(escaped.skip(1) =~= c@.subrange(3, 5));
        }
        return decode_hexadecimal(&c, 3, 5);
    }
    if escaped_length >= 3 && c[2] == 'u' && c[3] == '{' && c[length - 2] == '}' {
        proof {
            assert(escaped.subrange(2, escaped.len() - 1) =~= c@.subrange(4, length - 2));
        }
        return match decode_hexadecimal(&c, 4, length - 2) {
            Some(scalar) => {
                if scalar <= 0x10ffff && !(0xd800 <= scalar && scalar <= 0xdfff) {
                    Some(scalar)
                } else {
                    None
                }
            },
            None => None,
        };
    }
    None
}

} // verus!
