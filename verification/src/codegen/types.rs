//! The types that are written as text.
use crate::codegen::runtime::{
    RuntimeArrayElementType, RuntimeExpressionType, RuntimeReferenceTarget,
};
use crate::expression::MAX_ARRAY_ELEMENTS;
use crate::integer::{
    IntegerType, integer_type_named,
};
use crate::text::same_text;
use vstd::prelude::*;
use vstd::string::StrSliceExecFns;

verus! {

/// Whether a character is white space.
pub open spec fn is_blank(c: char) -> bool {
    ||| '\u{9}' <= c <= '\u{d}'
    ||| c == ' '
    ||| c == '\u{85}'
    ||| c == '\u{a0}'
    ||| c == '\u{1680}'
    ||| '\u{2000}' <= c <= '\u{200a}'
    ||| c == '\u{2028}'
    ||| c == '\u{2029}'
    ||| c == '\u{202f}'
    ||| c == '\u{205f}'
    ||| c == '\u{3000}'
}

pub fn blank(c: char) -> (result: bool)
    ensures
        result == is_blank(c),
{
    ('\u{9}' <= c && c <= '\u{d}') || c == ' ' || c == '\u{85}' || c == '\u{a0}' || c == '\u{1680}'
        || ('\u{2000}' <= c && c <= '\u{200a}') || c == '\u{2028}' || c == '\u{2029}' || c
        == '\u{202f}' || c == '\u{205f}' || c == '\u{3000}'
}

/// Where the first character stands, from a place on, that is not white space.
pub open spec fn text_start(text: Seq<char>, from: int) -> int
    decreases text.len() - from,
{
    if 0 <= from < text.len() && is_blank(text[from]) {
        text_start(text, from + 1)
    } else {
        from
    }
}

/// Where the white space at the end begins, up to a place.
pub open spec fn text_end(text: Seq<char>, start: int, to: int) -> int
    decreases to,
{
    if 0 <= start < to <= text.len() && is_blank(text[to - 1]) {
        text_end(text, start, to - 1)
    } else {
        to
    }
}

/// A text without white space around it.
pub open spec fn trimmed(text: Seq<char>) -> Seq<char> {
    let start = text_start(text, 0);
    text.subrange(start, text_end(text, start, text.len() as int))
}

/// The part of a text between two places.
pub fn part<'source>(text: &'source str, from: usize, to: usize) -> (result: &'source str)
    requires
        from <= to <= text@.len(),
    ensures
        result@ == text@.subrange(from as int, to as int),
{
    text.substring_char(from, to)
}

pub fn trim<'source>(text: &'source str) -> (result: &'source str)
    ensures
        result@ == trimmed(text@),
{
    let length: usize = text.unicode_len();
    let mut start: usize = 0;
    while start < length && blank(text.get_char(start))
        invariant
            start <= length,
            length == text@.len(),
            text_start(text@, 0) == text_start(text@, start as int),
        decreases length - start,
    {
        start = start + 1;
    }
    let mut end: usize = length;
    while start < end && blank(text.get_char(end - 1))
        invariant
            start <= end <= length,
            length == text@.len(),
            text_end(text@, start as int, length as int) == text_end(
                text@,
                start as int,
                end as int,
            ),
        decreases end,
    {
        end = end - 1;
    }
    part(text, start, end)
}

/// Where a character first stands, from a place on; the end if it does not.
pub open spec fn place_of(text: Seq<char>, c: char, from: int) -> int
    decreases text.len() - from,
{
    if 0 <= from < text.len() && text[from] != c {
        place_of(text, c, from + 1)
    } else {
        from
    }
}

pub fn find(text: &str, c: char) -> (result: usize)
    ensures
        result == place_of(text@, c, 0),
        result <= text@.len(),
        result < text@.len() ==> text@[result as int] == c,
{
    let length: usize = text.unicode_len();
    let mut place: usize = 0;
    while place < length && text.get_char(place) != c
        invariant
            place <= length,
            length == text@.len(),
            place_of(text@, c, 0) == place_of(text@, c, place as int),
        decreases length - place,
    {
        place = place + 1;
    }
    place
}

/// The number that digits write, from a place on, behind a value.
pub open spec fn number_from(digits: Seq<char>, from: int, value: int) -> Option<int>
    decreases digits.len() - from,
{
    if from >= digits.len() {
        Some(value)
    } else if 0 <= from && '0' <= digits[from] <= '9' {
        number_from(digits, from + 1, value * 10 + (digits[from] as int - '0' as int))
    } else {
        None
    }
}

proof fn number_grows(digits: Seq<char>, from: int, value: int)
    requires
        0 <= from,
        0 <= value,
    ensures
        number_from(digits, from, value) matches Some(number) ==> number >= value,
    decreases digits.len() - from,
{
    if from < digits.len() && '0' <= digits[from] <= '9' {
        number_grows(digits, from + 1, value * 10 + (digits[from] as int - '0' as int));
    }
}

/// How many elements an array type says it has.
pub open spec fn array_count(text: Seq<char>) -> Option<usize> {
    let text = trimmed(text);
    let digits = if text.len() > 0 && text[0] == '+' {
        text.subrange(1, text.len() as int)
    } else {
        text
    };
    if digits.len() == 0 {
        None
    } else {
        match number_from(digits, 0, 0) {
            Some(number) => if number <= MAX_ARRAY_ELEMENTS {
                Some(number as usize)
            } else {
                None
            },
            None => None,
        }
    }
}

pub fn read_array_count(source: &str) -> (result: Option<usize>)
    ensures
        result == array_count(source@),
{
    let text = trim(source);
    let length: usize = text.unicode_len();
    let digits = if length > 0 && text.get_char(0) == '+' {
        part(text, 1, length)
    } else {
        part(text, 0, length)
    };
    proof {
        assert(text@.subrange(0, length as int) =~= text@);
    }
    let count: usize = digits.unicode_len();
    if count == 0 {
        return None;
    }
    let mut number: usize = 0;
    let mut place: usize = 0;
    while place < count
        invariant
            place <= count,
            count == digits@.len(),
            number <= MAX_ARRAY_ELEMENTS,
            number_from(digits@, 0, 0) == number_from(digits@, place as int, number as int),
            count > 0,
            array_count(source@) == (match number_from(digits@, 0, 0) {
                Some(number) => if number <= MAX_ARRAY_ELEMENTS {
                    Some(number as usize)
                } else {
                    None
                },
                None => None,
            }),
        decreases count - place,
    {
        let c = digits.get_char(place);
        if c < '0' || '9' < c {
            return None;
        }
        let digit: usize = (c as u32 - '0' as u32) as usize;
        proof {
            number_grows(digits@, place as int + 1, number * 10 + digit);
        }
        number = number * 10 + digit;
        if number > MAX_ARRAY_ELEMENTS {
            return None;
        }
        place = place + 1;
    }
    Some(number)
}

/// The element type of a name.
pub open spec fn element_named(name: Seq<char>) -> Option<RuntimeArrayElementType> {
    if name == "()"@ {
        Some(RuntimeArrayElementType::Unit)
    } else {
        scalar_element_named(name)
    }
}

/// The element type of a name, where the unit value does not count.
pub open spec fn scalar_element_named(name: Seq<char>) -> Option<RuntimeArrayElementType> {
    if name == "bool"@ {
        Some(RuntimeArrayElementType::Bool)
    } else if name == "char"@ {
        Some(RuntimeArrayElementType::Char)
    } else {
        match integer_type_named(name) {
            Some(ty) => Some(RuntimeArrayElementType::Integer(Some(ty))),
            None => None,
        }
    }
}

pub fn read_element(name: &str) -> (result: Option<RuntimeArrayElementType>)
    ensures
        result == element_named(name@),
{
    if same_text(name, "()") {
        Some(RuntimeArrayElementType::Unit)
    } else {
        read_scalar_element(name)
    }
}

pub fn read_scalar_element(name: &str) -> (result: Option<RuntimeArrayElementType>)
    ensures
        result == scalar_element_named(name@),
{
    if same_text(name, "bool") {
        Some(RuntimeArrayElementType::Bool)
    } else if same_text(name, "char") {
        Some(RuntimeArrayElementType::Char)
    } else {
        match IntegerType::from_name(name) {
            Some(ty) => Some(RuntimeArrayElementType::Integer(Some(ty))),
            None => None,
        }
    }
}

/// What stands between square brackets, if a text is that.
pub open spec fn bracketed(text: Seq<char>) -> Option<Seq<char>> {
    if text.len() >= 2 && text[0] == '[' && text[text.len() - 1] == ']' {
        Some(text.subrange(1, text.len() - 1))
    } else {
        None
    }
}

pub fn inside_brackets<'source>(text: &'source str) -> (result: Option<&'source str>)
    ensures
        match result {
            Some(inside) => bracketed(text@) == Some(inside@),
            None => bracketed(text@) is None,
        },
{
    let length: usize = text.unicode_len();
    if length >= 2 && text.get_char(0) == '[' && text.get_char(length - 1) == ']' {
        Some(part(text, 1, length - 1))
    } else {
        None
    }
}

/// The array type that a text writes.
#[verifier::opaque]
pub open spec fn array_type(text: Seq<char>) -> Option<RuntimeExpressionType> {
    match bracketed(trimmed(text)) {
        Some(body) => {
            let divider = place_of(body, ';', 0);
            if divider < body.len() {
                match array_count(body.subrange(divider + 1, body.len() as int)) {
                    Some(count) => match element_named(trimmed(body.subrange(0, divider))) {
                        Some(element) => Some(RuntimeExpressionType::Array { element, count }),
                        None => None,
                    },
                    None => None,
                }
            } else {
                None
            }
        },
        None => None,
    }
}

pub fn runtime_array_type(text: &str) -> (result: Option<RuntimeExpressionType>)
    ensures
        result == array_type(text@),
{
    proof {
        reveal(array_type);
    }
    match inside_brackets(trim(text)) {
        Some(body) => {
            let length: usize = body.unicode_len();
            let divider: usize = find(body, ';');
            if divider < length {
                match read_array_count(part(body, divider + 1, length)) {
                    Some(count) => match read_element(trim(part(body, 0, divider))) {
                        Some(element) => Some(RuntimeExpressionType::Array { element, count }),
                        None => None,
                    },
                    None => None,
                }
            } else {
                None
            }
        },
        None => None,
    }
}

/// A text behind a prefix, if it begins with that.
pub open spec fn behind(text: Seq<char>, prefix: Seq<char>) -> Option<Seq<char>> {
    if prefix.len() <= text.len() && text.subrange(0, prefix.len() as int) == prefix {
        Some(text.subrange(prefix.len() as int, text.len() as int))
    } else {
        None
    }
}

pub fn strip<'source>(text: &'source str, prefix: &str) -> (result: Option<&'source str>)
    ensures
        match result {
            Some(rest) => behind(text@, prefix@) == Some(rest@),
            None => behind(text@, prefix@) is None,
        },
{
    let length: usize = text.unicode_len();
    let size: usize = prefix.unicode_len();
    if size <= length && same_text(part(text, 0, size), prefix) {
        Some(part(text, size, length))
    } else {
        None
    }
}

/// What a reference leads to, by the text behind its sign.
#[verifier::opaque]
pub open spec fn target_named(target: Seq<char>) -> Option<RuntimeReferenceTarget> {
    match array_type(target) {
        Some(RuntimeExpressionType::Array { element, count }) => Some(
            RuntimeReferenceTarget::Array { element, count },
        ),
        _ => if target == "str"@ {
            Some(RuntimeReferenceTarget::Str)
        } else if target.len() > 0 && target[0] == '[' && target[target.len() - 1] == ']' {
            match bracketed(target) {
                Some(inside) => match element_named(trimmed(inside)) {
                    Some(element) => Some(RuntimeReferenceTarget::Slice(element)),
                    None => None,
                },
                None => None,
            }
        } else {
            match scalar_element_named(target) {
                Some(element) => Some(RuntimeReferenceTarget::Scalar(element)),
                None => None,
            }
        },
    }
}

pub fn read_target(target: &str) -> (result: Option<RuntimeReferenceTarget>)
    ensures
        result == target_named(target@),
{
    proof {
        reveal(target_named);
    }
    if let Some(RuntimeExpressionType::Array { element, count }) = runtime_array_type(target) {
        return Some(RuntimeReferenceTarget::Array { element, count });
    }
    if same_text(target, "str") {
        return Some(RuntimeReferenceTarget::Str);
    }
    let length: usize = target.unicode_len();
    if length > 0 && target.get_char(0) == '[' && target.get_char(length - 1) == ']' {
        match inside_brackets(target) {
            Some(inside) => match read_element(trim(inside)) {
                Some(element) => Some(RuntimeReferenceTarget::Slice(element)),
                None => None,
            },
            None => None,
        }
    } else {
        match read_scalar_element(target) {
            Some(element) => Some(RuntimeReferenceTarget::Scalar(element)),
            None => None,
        }
    }
}

/// The reference type that a text writes.
#[verifier::opaque]
pub open spec fn reference_type(text: Seq<char>) -> Option<RuntimeExpressionType> {
    match behind(trimmed(text), "&"@) {
        Some(rest) => {
            let target = trimmed(rest);
            let (target, mutable) = match behind(target, "mut "@) {
                Some(rest) => (trimmed(rest), true),
                None => (target, false),
            };
            match target_named(target) {
                Some(target) => Some(RuntimeExpressionType::Reference { target, mutable }),
                None => None,
            }
        },
        None => None,
    }
}

pub fn runtime_reference_type(text: &str) -> (result: Option<RuntimeExpressionType>)
    ensures
        result == reference_type(text@),
{
    proof {
        reveal(reference_type);
    }
    match strip(trim(text), "&") {
        Some(rest) => {
            let whole = trim(rest);
            let (target, mutable) = match strip(whole, "mut ") {
                Some(rest) => (trim(rest), true),
                None => (whole, false),
            };
            match read_target(target) {
                Some(target) => Some(RuntimeExpressionType::Reference { target, mutable }),
                None => None,
            }
        },
        None => None,
    }
}

/// The raw pointer type that a text writes.
#[verifier::opaque]
pub open spec fn pointer_type(text: Seq<char>) -> Option<RuntimeExpressionType> {
    match behind(trimmed(text), "*"@) {
        Some(rest) => {
            let target = trimmed(rest);
            match behind(target, "const "@) {
                Some(rest) => pointer_to(trimmed(rest), false),
                None => match behind(target, "mut "@) {
                    Some(rest) => pointer_to(trimmed(rest), true),
                    None => None,
                },
            }
        },
        None => None,
    }
}

pub open spec fn pointer_to(name: Seq<char>, mutable: bool) -> Option<RuntimeExpressionType> {
    match scalar_element_named(name) {
        Some(pointee) => Some(RuntimeExpressionType::RawPointer { pointee, mutable }),
        None => None,
    }
}

pub fn read_pointer(name: &str, mutable: bool) -> (result: Option<RuntimeExpressionType>)
    ensures
        result == pointer_to(name@, mutable),
{
    match read_scalar_element(name) {
        Some(pointee) => Some(RuntimeExpressionType::RawPointer { pointee, mutable }),
        None => None,
    }
}

pub fn runtime_raw_pointer_type(text: &str) -> (result: Option<RuntimeExpressionType>)
    ensures
        result == pointer_type(text@),
{
    proof {
        reveal(pointer_type);
    }
    match strip(trim(text), "*") {
        Some(rest) => {
            let target = trim(rest);
            match strip(target, "const ") {
                Some(rest) => read_pointer(trim(rest), false),
                None => match strip(target, "mut ") {
                    Some(rest) => read_pointer(trim(rest), true),
                    None => None,
                },
            }
        },
        None => None,
    }
}

/// The array, reference or pointer type that a text writes.
#[verifier::opaque]
pub open spec fn compound_type(text: Seq<char>) -> Option<RuntimeExpressionType> {
    match array_type(text) {
        Some(ty) => Some(ty),
        None => match reference_type(text) {
            Some(ty) => Some(ty),
            None => pointer_type(text),
        },
    }
}

pub fn runtime_compound_type(text: &str) -> (result: Option<RuntimeExpressionType>)
    ensures
        result == compound_type(text@),
{
    proof {
        reveal(compound_type);
    }
    match runtime_array_type(text) {
        Some(ty) => Some(ty),
        None => match runtime_reference_type(text) {
            Some(ty) => Some(ty),
            None => runtime_raw_pointer_type(text),
        },
    }
}

} // verus!
