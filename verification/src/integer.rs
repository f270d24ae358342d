//! Integer types and the arithmetic of constant values.
//!
//! A constant value of any type is held in 128 bits; a negative value of a
//! narrower signed type is held sign-extended.
use crate::text::same_text;
use vstd::prelude::*;

verus! {

#[derive(Clone, Copy, Debug, PartialEq, Eq, Structural)]
pub enum UnaryOperator {
    Negate,
    Not,
    Dereference,
    AddressOf,
    AddressOfMut,
}

#[derive(Clone, Copy, Debug, PartialEq, Eq, Structural)]
pub enum BinaryOperator {
    LogicalOr,
    LogicalAnd,
    BitOr,
    BitXor,
    BitAnd,
    Equal,
    NotEqual,
    Less,
    LessEqual,
    Greater,
    GreaterEqual,
    ShiftLeft,
    ShiftRight,
    Add,
    Subtract,
    Multiply,
    Divide,
    Remainder,
}

#[derive(Clone, Copy, Debug, PartialEq, Eq, Structural)]
pub enum IntegerType {
    U8,
    U16,
    U32,
    U64,
    U128,
    Usize,
    I8,
    I16,
    I32,
    I64,
    I128,
    Isize,
}

#[derive(Clone, Copy, Debug, PartialEq, Eq, Structural)]
pub enum ScalarType {
    Integer(IntegerType),
    Bool,
}

/// Why a constant expression has no value.
#[derive(Clone, Copy, Debug, PartialEq, Eq, Structural)]
pub enum ConstEvalError {
    UnknownIdentifier,
    DivisionByZero,
    Overflow,
    InvalidShift,
    InvalidCast,
    InvalidExpressionTree,
    NestingLimitExceeded,
    UnsupportedCall,
    InvalidRangeType,
    InvalidRangeBounds,
    ArrayIndexOutOfBounds,
}

/// The integer type that `name` names.
pub open spec fn integer_type_named(name: Seq<char>) -> Option<IntegerType> {
    if name == "u8"@ {
        Some(IntegerType::U8)
    } else if name == "u16"@ {
        Some(IntegerType::U16)
    } else if name == "u32"@ {
        Some(IntegerType::U32)
    } else if name == "u64"@ {
        Some(IntegerType::U64)
    } else if name == "u128"@ {
        Some(IntegerType::U128)
    } else if name == "usize"@ {
        Some(IntegerType::Usize)
    } else if name == "i8"@ {
        Some(IntegerType::I8)
    } else if name == "i16"@ {
        Some(IntegerType::I16)
    } else if name == "i32"@ {
        Some(IntegerType::I32)
    } else if name == "i64"@ {
        Some(IntegerType::I64)
    } else if name == "i128"@ {
        Some(IntegerType::I128)
    } else if name == "isize"@ {
        Some(IntegerType::Isize)
    } else {
        None
    }
}

/// The scalar type that `name` names.
pub open spec fn scalar_type_named(name: Seq<char>) -> Option<ScalarType> {
    if name == "bool"@ {
        Some(ScalarType::Bool)
    } else {
        match integer_type_named(name) {
            Some(ty) => Some(ScalarType::Integer(ty)),
            None => None,
        }
    }
}

/// The name of an integer type.
pub open spec fn integer_type_name(ty: IntegerType) -> Seq<char> {
    match ty {
        IntegerType::U8 => "u8"@,
        IntegerType::U16 => "u16"@,
        IntegerType::U32 => "u32"@,
        IntegerType::U64 => "u64"@,
        IntegerType::U128 => "u128"@,
        IntegerType::Usize => "usize"@,
        IntegerType::I8 => "i8"@,
        IntegerType::I16 => "i16"@,
        IntegerType::I32 => "i32"@,
        IntegerType::I64 => "i64"@,
        IntegerType::I128 => "i128"@,
        IntegerType::Isize => "isize"@,
    }
}

/// How many bits a value of `ty` has where pointers have `pointer_bits`.
pub open spec fn integer_bits(ty: IntegerType, pointer_bits: u8) -> Option<u8> {
    match ty {
        IntegerType::U8 | IntegerType::I8 => Some(8),
        IntegerType::U16 | IntegerType::I16 => Some(16),
        IntegerType::U32 | IntegerType::I32 => Some(32),
        IntegerType::U64 | IntegerType::I64 => Some(64),
        IntegerType::U128 | IntegerType::I128 => Some(128),
        IntegerType::Usize | IntegerType::Isize => if pointer_bits == 16 || pointer_bits == 32
            || pointer_bits == 64 {
            Some(pointer_bits)
        } else {
            None
        },
    }
}

/// Whether `ty` is one of the signed types.
pub open spec fn integer_signed(ty: IntegerType) -> bool {
    match ty {
        IntegerType::I8
        | IntegerType::I16
        | IntegerType::I32
        | IntegerType::I64
        | IntegerType::I128
        | IntegerType::Isize => true,
        _ => false,
    }
}

impl ScalarType {
    pub fn from_name(name: &str) -> (result: Option<Self>)
        ensures
            result == scalar_type_named(name@),
    {
        if same_text(name, "bool") {
            Some(ScalarType::Bool)
        } else {
            match IntegerType::from_name(name) {
                Some(ty) => Some(ScalarType::Integer(ty)),
                None => None,
            }
        }
    }
}

impl IntegerType {
    pub fn from_name(name: &str) -> (result: Option<Self>)
        ensures
            result == integer_type_named(name@),
    {
        if same_text(name, "u8") {
            Some(IntegerType::U8)
        } else if same_text(name, "u16") {
            Some(IntegerType::U16)
        } else if same_text(name, "u32") {
            Some(IntegerType::U32)
        } else if same_text(name, "u64") {
            Some(IntegerType::U64)
        } else if same_text(name, "u128") {
            Some(IntegerType::U128)
        } else if same_text(name, "usize") {
            Some(IntegerType::Usize)
        } else if same_text(name, "i8") {
            Some(IntegerType::I8)
        } else if same_text(name, "i16") {
            Some(IntegerType::I16)
        } else if same_text(name, "i32") {
            Some(IntegerType::I32)
        } else if same_text(name, "i64") {
            Some(IntegerType::I64)
        } else if same_text(name, "i128") {
            Some(IntegerType::I128)
        } else if same_text(name, "isize") {
            Some(IntegerType::Isize)
        } else {
            None
        }
    }

    pub fn bits(self, pointer_bits: u8) -> (result: Option<u8>)
        ensures
            result == integer_bits(self, pointer_bits),
    {
        match self {
            IntegerType::U8 | IntegerType::I8 => Some(8),
            IntegerType::U16 | IntegerType::I16 => Some(16),
            IntegerType::U32 | IntegerType::I32 => Some(32),
            IntegerType::U64 | IntegerType::I64 => Some(64),
            IntegerType::U128 | IntegerType::I128 => Some(128),
            IntegerType::Usize | IntegerType::Isize => {
                if pointer_bits == 16 || pointer_bits == 32 || pointer_bits == 64 {
                    Some(pointer_bits)
                } else {
                    None
                }
            },
        }
    }

    pub fn is_signed(self) -> (result: bool)
        ensures
            result == integer_signed(self),
    {
        match self {
            IntegerType::I8
            | IntegerType::I16
            | IntegerType::I32
            | IntegerType::I64
            | IntegerType::I128
            | IntegerType::Isize => true,
            _ => false,
        }
    }

    pub fn name(self) -> (result: &'static str)
        ensures
            result@ == integer_type_name(self),
    {
        match self {
            IntegerType::U8 => "u8",
            IntegerType::U16 => "u16",
            IntegerType::U32 => "u32",
            IntegerType::U64 => "u64",
            IntegerType::U128 => "u128",
            IntegerType::Usize => "usize",
            IntegerType::I8 => "i8",
            IntegerType::I16 => "i16",
            IntegerType::I32 => "i32",
            IntegerType::I64 => "i64",
            IntegerType::I128 => "i128",
            IntegerType::Isize => "isize",
        }
    }
}

/// Two to the power of `bits`, for the widths that integer types have.
pub open spec fn width_modulus(bits: u8) -> int {
    if bits == 8 {
        0x100
    } else if bits == 16 {
        0x1_0000
    } else if bits == 32 {
        0x1_0000_0000
    } else if bits == 64 {
        0x1_0000_0000_0000_0000
    } else {
        0x1_0000_0000_0000_0000_0000_0000_0000_0000int
    }
}

/// The number that the low `bits` of `value` stand for in two's complement.
pub open spec fn signed_number(value: u128, bits: u8) -> int {
    let low = value as int % width_modulus(bits);
    if 2 * low >= width_modulus(bits) {
        low - width_modulus(bits)
    } else {
        low
    }
}

/// The 128-bit two's-complement representation of `number`.
pub open spec fn representation(number: int) -> u128 {
    (number % width_modulus(128)) as u128
}

/// The number that `value` becomes when it is converted to `ty`.
pub open spec fn converted_number(value: u128, ty: IntegerType, bits: u8) -> int {
    if integer_signed(ty) {
        signed_number(value, bits)
    } else {
        value as int % width_modulus(bits)
    }
}

/// What `value as ty` is.
pub open spec fn cast_value(value: u128, ty: IntegerType, pointer_bits: u8) -> Result<
    u128,
    ConstEvalError,
> {
    match integer_bits(ty, pointer_bits) {
        Some(bits) => Ok(representation(converted_number(value, ty, bits))),
        None => Err(ConstEvalError::InvalidCast),
    }
}

/// `value` itself where it is a value of `ty`.
pub open spec fn ascribed_value(value: u128, ty: IntegerType, pointer_bits: u8) -> Result<
    u128,
    ConstEvalError,
> {
    match cast_value(value, ty, pointer_bits) {
        Ok(normalized) => if normalized == value {
            Ok(value)
        } else {
            Err(ConstEvalError::Overflow)
        },
        Err(error) => Err(error),
    }
}

/// The value of the literal `magnitude` of the signed type `ty` with a minus
/// sign before it.
pub open spec fn negated_magnitude(magnitude: u128, ty: IntegerType, pointer_bits: u8) -> Result<
    u128,
    ConstEvalError,
> {
    if !integer_signed(ty) {
        Err(ConstEvalError::InvalidCast)
    } else {
        match integer_bits(ty, pointer_bits) {
            None => Err(ConstEvalError::InvalidCast),
            Some(bits) => if 2 * magnitude > width_modulus(bits) {
                Err(ConstEvalError::Overflow)
            } else {
                Ok(representation(-(magnitude as int)))
            },
        }
    }
}

pub open spec fn truth(condition: bool) -> u128 {
    if condition {
        1
    } else {
        0
    }
}

/// What a binary operator gives on two values.
pub open spec fn binary_value(operator: BinaryOperator, left: u128, right: u128) -> Result<
    u128,
    ConstEvalError,
> {
    match operator {
        BinaryOperator::LogicalOr => Ok(truth(left != 0 || right != 0)),
        BinaryOperator::LogicalAnd => Ok(truth(left != 0 && right != 0)),
        BinaryOperator::BitOr => Ok(left | right),
        BinaryOperator::BitXor => Ok(left ^ right),
        BinaryOperator::BitAnd => Ok(left & right),
        BinaryOperator::Equal => Ok(truth(left == right)),
        BinaryOperator::NotEqual => Ok(truth(left != right)),
        BinaryOperator::Less => Ok(truth(left < right)),
        BinaryOperator::LessEqual => Ok(truth(left <= right)),
        BinaryOperator::Greater => Ok(truth(left > right)),
        BinaryOperator::GreaterEqual => Ok(truth(left >= right)),
        BinaryOperator::ShiftLeft => if right < 128 {
            Ok(left << right)
        } else {
            Err(ConstEvalError::InvalidShift)
        },
        BinaryOperator::ShiftRight => if right < 128 {
            Ok(left >> right)
        } else {
            Err(ConstEvalError::InvalidShift)
        },
        BinaryOperator::Add => if left + right <= u128::MAX {
            Ok((left + right) as u128)
        } else {
            Err(ConstEvalError::Overflow)
        },
        BinaryOperator::Subtract => if left >= right {
            Ok((left - right) as u128)
        } else {
            Err(ConstEvalError::Overflow)
        },
        BinaryOperator::Multiply => if left * right <= u128::MAX {
            Ok((left * right) as u128)
        } else {
            Err(ConstEvalError::Overflow)
        },
        BinaryOperator::Divide => if right != 0 {
            Ok((left as int / right as int) as u128)
        } else {
            Err(ConstEvalError::DivisionByZero)
        },
        BinaryOperator::Remainder => if right != 0 {
            Ok((left as int % right as int) as u128)
        } else {
            Err(ConstEvalError::DivisionByZero)
        },
    }
}

/// The modulus of a width below the full one.
fn narrow_modulus(bits: u8) -> (modulus: u128)
    requires
        bits == 8 || bits == 16 || bits == 32 || bits == 64,
    ensures
        modulus == width_modulus(bits),
{
    if bits == 8 {
        0x100
    } else if bits == 16 {
        0x1_0000
    } else if bits == 32 {
        0x1_0000_0000
    } else {
        0x1_0000_0000_0000_0000
    }
}

/// Reads the low `bits` of a value as a two's-complement number.
pub fn read_signed(value: u128, bits: u8) -> (number: i128)
    requires
        bits == 8 || bits == 16 || bits == 32 || bits == 64 || bits == 128,
    ensures
        number == signed_number(value, bits),
{
    if bits == 128 {
        if value <= 0x7fff_ffff_ffff_ffff_ffff_ffff_ffff_ffff {
            value as i128
        } else {
            -((u128::MAX - value) as i128) - 1
        }
    } else {
        let modulus: u128 = narrow_modulus(bits);
        let low: u128 = value % modulus;
        if low >= modulus / 2 {
            low as i128 - modulus as i128
        } else {
            low as i128
        }
    }
}

/// A 128-bit pattern is the representation of the numbers it stands for.
proof fn representation_round_trips(value: u128)
    ensures
        representation(value as int) == value,
        representation(signed_number(value, 128)) == value,
{
    let full = width_modulus(128);
    let number = signed_number(value, 128);
    assert(value as int % full == value as int);
    if number < 0 {
        assert(number % full == full + number) by (nonlinear_arith)
            requires
                -full <= number < 0,
                full == 0x1_0000_0000_0000_0000_0000_0000_0000_0000int,
        ;
    }
}

pub fn cast_integer(value: u128, target: IntegerType, pointer_bits: u8) -> (result: Result<
    u128,
    ConstEvalError,
>)
    ensures
        result == cast_value(value, target, pointer_bits),
{
    let bits: u8 = match target.bits(pointer_bits) {
        Some(bits) => bits,
        None => return Err(ConstEvalError::InvalidCast),
    };
    if bits == 128 {
        proof {
            representation_round_trips(value);
        }
        return Ok(value);
    }
    let modulus: u128 = narrow_modulus(bits);
    let truncated: u128 = value % modulus;
    if target.is_signed() && truncated >= modulus / 2 {
        Ok(u128::MAX - (modulus - truncated - 1))
    } else {
        Ok(truncated)
    }
}

pub fn ascribe_integer(value: u128, target: IntegerType, pointer_bits: u8) -> (result: Result<
    u128,
    ConstEvalError,
>)
    ensures
        result == ascribed_value(value, target, pointer_bits),
{
    match cast_integer(value, target, pointer_bits) {
        Ok(normalized) => {
            if normalized == value {
                Ok(value)
            } else {
                Err(ConstEvalError::Overflow)
            }
        },
        Err(error) => Err(error),
    }
}

pub fn negate_signed_magnitude(
    magnitude: u128,
    target: IntegerType,
    pointer_bits: u8,
) -> (result: Result<u128, ConstEvalError>)
    ensures
        result == negated_magnitude(magnitude, target, pointer_bits),
{
    if !target.is_signed() {
        return Err(ConstEvalError::InvalidCast);
    }
    let bits: u8 = match target.bits(pointer_bits) {
        Some(bits) => bits,
        None => return Err(ConstEvalError::InvalidCast),
    };
    let limit: u128 = if bits == 128 {
        0x8000_0000_0000_0000_0000_0000_0000_0000
    } else {
        narrow_modulus(bits) / 2
    };
    if magnitude > limit {
        return Err(ConstEvalError::Overflow);
    }
    if magnitude == 0 {
        Ok(0)
    } else {
        Ok(u128::MAX - (magnitude - 1))
    }
}

fn number_of_truth(condition: bool) -> (value: u128)
    ensures
        value == truth(condition),
{
    if condition {
        1
    } else {
        0
    }
}

pub fn evaluate_binary(operator: BinaryOperator, left: u128, right: u128) -> (result: Result<
    u128,
    ConstEvalError,
>)
    ensures
        result == binary_value(operator, left, right),
{
    match operator {
        BinaryOperator::LogicalOr => Ok(number_of_truth(left != 0 || right != 0)),
        BinaryOperator::LogicalAnd => Ok(number_of_truth(left != 0 && right != 0)),
        BinaryOperator::BitOr => Ok(left | right),
        BinaryOperator::BitXor => Ok(left ^ right),
        BinaryOperator::BitAnd => Ok(left & right),
        BinaryOperator::Equal => Ok(number_of_truth(left == right)),
        BinaryOperator::NotEqual => Ok(number_of_truth(left != right)),
        BinaryOperator::Less => Ok(number_of_truth(left < right)),
        BinaryOperator::LessEqual => Ok(number_of_truth(left <= right)),
        BinaryOperator::Greater => Ok(number_of_truth(left > right)),
        BinaryOperator::GreaterEqual => Ok(number_of_truth(left >= right)),
        BinaryOperator::ShiftLeft => {
            if right < 128 {
                Ok(left << right)
            } else {
                Err(ConstEvalError::InvalidShift)
            }
        },
        BinaryOperator::ShiftRight => {
            if right < 128 {
                Ok(left >> right)
            } else {
                Err(ConstEvalError::InvalidShift)
            }
        },
        BinaryOperator::Add => {
            match left.checked_add(right) {
                Some(value) => Ok(value),
                None => Err(ConstEvalError::Overflow),
            }
        },
        BinaryOperator::Subtract => {
            match left.checked_sub(right) {
                Some(value) => Ok(value),
                None => Err(ConstEvalError::Overflow),
            }
        },
        BinaryOperator::Multiply => {
            match left.checked_mul(right) {
                Some(value) => Ok(value),
                None => Err(ConstEvalError::Overflow),
            }
        },
        BinaryOperator::Divide => {
            if right != 0 {
                Ok(left / right)
            } else {
                Err(ConstEvalError::DivisionByZero)
            }
        },
        BinaryOperator::Remainder => {
            if right != 0 {
                Ok(left % right)
            } else {
                Err(ConstEvalError::DivisionByZero)
            }
        },
    }
}

/// An integer type is the one that its own name names.
pub proof fn name_names_its_type(ty: IntegerType)
    ensures
        integer_type_named(integer_type_name(ty)) == Some(ty),
        scalar_type_named(integer_type_name(ty)) == Some(ScalarType::Integer(ty)),
{
    reveal_strlit("u8");
    reveal_strlit("u16");
    reveal_strlit("u32");
    reveal_strlit("u64");
    reveal_strlit("u128");
    reveal_strlit("usize");
    reveal_strlit("i8");
    reveal_strlit("i16");
    reveal_strlit("i32");
    reveal_strlit("i64");
    reveal_strlit("i128");
    reveal_strlit("isize");
    reveal_strlit("bool");
    let name = integer_type_name(ty);
    assert(name[0] == 'u' || name[0] == 'i');
    assert(name.len() >= 3 ==> name[1] == '1' || name[1] == '3' || name[1] == '6' || name[1] == 's');
}

/// Only the name of an integer type names it.
pub proof fn named_type_has_the_name(name: Seq<char>)
    ensures
        integer_type_named(name) matches Some(ty) ==> integer_type_name(ty) == name,
{
}

/// Converting to a type a second time changes nothing.
pub proof fn cast_is_idempotent(value: u128, ty: IntegerType, pointer_bits: u8)
    ensures
        cast_value(value, ty, pointer_bits) matches Ok(first) ==> cast_value(
            first,
            ty,
            pointer_bits,
        ) == Ok::<u128, ConstEvalError>(first),
{
    if integer_bits(ty, pointer_bits) is Some {
        let bits = integer_bits(ty, pointer_bits)->0;
        let number = converted_number(value, ty, bits);
        let first = representation(number);
        let full = width_modulus(128);
        if number < 0 {
            assert(number % full == full + number) by (nonlinear_arith)
                requires
                    -full <= number < 0,
                    full == 0x1_0000_0000_0000_0000_0000_0000_0000_0000int,
            ;
        } else {
            assert(number % full == number) by (nonlinear_arith)
                requires
                    0 <= number < full,
            ;
        }
        if bits == 8 {
            assert(first as int % 0x100 == number % 0x100);
        } else if bits == 16 {
            assert(first as int % 0x1_0000 == number % 0x1_0000);
        } else if bits == 32 {
            assert(first as int % 0x1_0000_0000 == number % 0x1_0000_0000);
        } else if bits == 64 {
            assert(first as int % 0x1_0000_0000_0000_0000 == number % 0x1_0000_0000_0000_0000);
        } else {
            representation_round_trips(value);
            representation_round_trips(first);
        }
        assert(converted_number(first, ty, bits) == number);
    }
}

/// An ascription gives a value exactly where the cast leaves it unchanged.
pub proof fn ascription_accepts_what_the_cast_keeps(value: u128, ty: IntegerType, pointer_bits: u8)
    ensures
        (ascribed_value(value, ty, pointer_bits) is Ok) <==> cast_value(value, ty, pointer_bits)
            == Ok::<u128, ConstEvalError>(value),
        ascribed_value(value, ty, pointer_bits) matches Ok(kept) ==> kept == value,
{
}

/// A negated literal is a value of its type: ascribing the type keeps it.
pub proof fn negated_literal_fits_its_type(magnitude: u128, ty: IntegerType, pointer_bits: u8)
    ensures
        negated_magnitude(magnitude, ty, pointer_bits) matches Ok(value) ==> ascribed_value(
            value,
            ty,
            pointer_bits,
        ) == Ok::<u128, ConstEvalError>(value),
{
    if negated_magnitude(magnitude, ty, pointer_bits) is Ok && magnitude != 0 {
        let bits = integer_bits(ty, pointer_bits)->0;
        let value = negated_magnitude(magnitude, ty, pointer_bits)->Ok_0;
        let full = width_modulus(128);
        assert(-(magnitude as int) % full == full - magnitude) by (nonlinear_arith)
            requires
                0 < magnitude < full,
                full == 0x1_0000_0000_0000_0000_0000_0000_0000_0000int,
        ;
        assert(value == full - magnitude);
        if bits == 8 {
            assert(value as int % 0x100 == 0x100 - magnitude);
        } else if bits == 16 {
            assert(value as int % 0x1_0000 == 0x1_0000 - magnitude);
        } else if bits == 32 {
            assert(value as int % 0x1_0000_0000 == 0x1_0000_0000 - magnitude);
        } else if bits == 64 {
            assert(value as int % 0x1_0000_0000_0000_0000 == 0x1_0000_0000_0000_0000 - magnitude);
        } else {
            assert(value as int % full == full - magnitude);
        }
        assert(signed_number(value, bits) == -(magnitude as int));
    }
}

} // verus!
