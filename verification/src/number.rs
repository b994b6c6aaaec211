//! Reflected numbers. Floats are held as their IEEE-754 bit patterns.

use vstd::prelude::*;
use crate::float_bits::{f32_bits_to_int, f32_to_int, f64_bits_to_int, f64_to_int};
use crate::types::{FloatType, IntType, NumberType, Type};

verus! {

/// An integer of one of the integer types.
#[derive(Debug, Clone, Copy, PartialEq, Eq, Structural)]
pub enum Int {
    I8(i8),
    I16(i16),
    I32(i32),
    I64(i64),
    U8(u8),
    U16(u16),
    U32(u32),
    U64(u64),
}

/// The mathematical value of an integer.
pub open spec fn int_value(i: Int) -> int {
    match i {
        Int::I8(v) => v as int,
        Int::I16(v) => v as int,
        Int::I32(v) => v as int,
        Int::I64(v) => v as int,
        Int::U8(v) => v as int,
        Int::U16(v) => v as int,
        Int::U32(v) => v as int,
        Int::U64(v) => v as int,
    }
}

/// The position of the integer's type in declaration order.
pub open spec fn int_rank(i: Int) -> int {
    match i {
        Int::I8(_) => 0,
        Int::I16(_) => 1,
        Int::I32(_) => 2,
        Int::I64(_) => 3,
        Int::U8(_) => 4,
        Int::U16(_) => 5,
        Int::U32(_) => 6,
        Int::U64(_) => 7,
    }
}

pub open spec fn int_kind(i: Int) -> IntType {
    match i {
        Int::I8(_) => IntType::I8,
        Int::I16(_) => IntType::I16,
        Int::I32(_) => IntType::I32,
        Int::I64(_) => IntType::I64,
        Int::U8(_) => IntType::U8,
        Int::U16(_) => IntType::U16,
        Int::U32(_) => IntType::U32,
        Int::U64(_) => IntType::U64,
    }
}

impl Int {
    /// The value widened to `i128`.
    pub fn to_i128(&self) -> (r: i128)
        ensures
            r as int == int_value(*self),
    {
        match self {
            Int::I8(v) => *v as i128,
            Int::I16(v) => *v as i128,
            Int::I32(v) => *v as i128,
            Int::I64(v) => *v as i128,
            Int::U8(v) => *v as i128,
            Int::U16(v) => *v as i128,
            Int::U32(v) => *v as i128,
            Int::U64(v) => *v as i128,
        }
    }

    /// The integer type of the value.
    pub fn kind(&self) -> (r: IntType)
        ensures
            r == int_kind(*self),
    {
        match self {
            Int::I8(_) => IntType::I8,
            Int::I16(_) => IntType::I16,
            Int::I32(_) => IntType::I32,
            Int::I64(_) => IntType::I64,
            Int::U8(_) => IntType::U8,
            Int::U16(_) => IntType::U16,
            Int::U32(_) => IntType::U32,
            Int::U64(_) => IntType::U64,
        }
    }

    /// The reflected type of the value.
    pub fn to_type(&self) -> (r: Type)
        ensures
            r == Type::Number(NumberType::Int(int_kind(*self))),
    {
        Type::Number(NumberType::Int(self.kind()))
    }
}

/// A floating-point number, held as the bits of its IEEE-754 encoding.
#[derive(Debug, Clone, Copy)]
pub enum Float {
    F32(u32),
    F64(u64),
}

/// Whether the float is NaN.
pub open spec fn float_nan(f: Float) -> bool {
    match f {
        Float::F32(b) => (b & 0x7fff_ffffu32) > 0x7f80_0000u32,
        Float::F64(b) => (b & 0x7fff_ffff_ffff_ffffu64) > 0x7ff0_0000_0000_0000u64,
    }
}

/// An integer that orders non-NaN floats of one width as their values do
/// (both zeros map to 0).
pub open spec fn float_key(f: Float) -> int {
    match f {
        Float::F32(b) => if (b >> 31u32) == 1 { -((b & 0x7fff_ffffu32) as int) } else { (b & 0x7fff_ffffu32) as int },
        Float::F64(b) => if (b >> 63u64) == 1 {
            -((b & 0x7fff_ffff_ffff_ffffu64) as int)
        } else {
            (b & 0x7fff_ffff_ffff_ffffu64) as int
        },
    }
}

/// IEEE equality of two floats of the same width (NaN equals nothing, the zeros are equal).
pub open spec fn float_eq(a: Float, b: Float) -> bool {
    &&& (a is F32) == (b is F32)
    &&& !float_nan(a)
    &&& !float_nan(b)
    &&& float_key(a) == float_key(b)
}

/// Whether the float is nonzero (NaN is).
pub open spec fn float_nonzero(f: Float) -> bool {
    float_key(f) != 0 || float_nan(f)
}

impl Float {
    /// The reflected type of the value.
    pub fn to_type(&self) -> (r: Type)
        ensures
            r == Type::Number(NumberType::Float(if *self is F32 { FloatType::F32 } else { FloatType::F64 })),
    {
        match self {
            Float::F32(_) => Type::Number(NumberType::Float(FloatType::F32)),
            Float::F64(_) => Type::Number(NumberType::Float(FloatType::F64)),
        }
    }

    /// Whether this is an `f32`.
    pub fn is_f32(&self) -> (r: bool)
        ensures
            r == (*self is F32),
    {
        matches!(self, Float::F32(_))
    }

    /// Whether this is an `f64`.
    pub fn is_f64(&self) -> (r: bool)
        ensures
            r == (*self is F64),
    {
        matches!(self, Float::F64(_))
    }

    /// Whether the value is NaN.
    pub fn is_nan(&self) -> (r: bool)
        ensures
            r == float_nan(*self),
    {
        match self {
            Float::F32(b) => (*b & 0x7fff_ffffu32) > 0x7f80_0000u32,
            Float::F64(b) => (*b & 0x7fff_ffff_ffff_ffffu64) > 0x7ff0_0000_0000_0000u64,
        }
    }

    /// The ordering key of the value.
    pub fn key(&self) -> (r: i128)
        ensures
            r as int == float_key(*self),
    {
        match self {
            Float::F32(b) => {
                let m = (*b & 0x7fff_ffffu32) as i128;
                if (*b >> 31u32) == 1 { -m } else { m }
            },
            Float::F64(b) => {
                let m = (*b & 0x7fff_ffff_ffff_ffffu64) as i128;
                if (*b >> 63u64) == 1 { -m } else { m }
            },
        }
    }
}

/// A reflected number.
#[derive(Debug, Clone, Copy)]
pub enum Number {
    Int(Int),
    Float(Float),
}

/// The reflected type of a number.
pub open spec fn number_type(n: Number) -> Type {
    match n {
        Number::Int(v) => Type::Number(NumberType::Int(int_kind(v))),
        Number::Float(Float::F32(_)) => Type::Number(NumberType::Float(FloatType::F32)),
        Number::Float(Float::F64(_)) => Type::Number(NumberType::Float(FloatType::F64)),
    }
}

/// Equality of numbers: integers of the same type and value, or IEEE-equal floats of the same width.
pub open spec fn number_eq(a: Number, b: Number) -> bool {
    match (a, b) {
        (Number::Int(x), Number::Int(y)) => x == y,
        (Number::Float(x), Number::Float(y)) => float_eq(x, y),
        _ => false,
    }
}

/// The sign of `x`: -1, 0 or 1.
pub open spec fn sign(x: int) -> int {
    if x < 0 { -1 } else if x > 0 { 1 } else { 0 }
}

/// The order of two numbers: integers before floats, then by type in
/// declaration order, then by value; a NaN is unordered, read as 0.
pub open spec fn number_order(a: Number, b: Number) -> int {
    match (a, b) {
        (Number::Int(x), Number::Int(y)) => if int_rank(x) != int_rank(y) {
            sign(int_rank(x) - int_rank(y))
        } else {
            sign(int_value(x) - int_value(y))
        },
        (Number::Int(_), Number::Float(_)) => -1,
        (Number::Float(_), Number::Int(_)) => 1,
        (Number::Float(x), Number::Float(y)) => if (x is F32) != (y is F32) {
            if x is F32 { -1 } else { 1 }
        } else if float_nan(x) || float_nan(y) {
            0
        } else {
            sign(float_key(x) - float_key(y))
        },
    }
}

/// Equality of numbers.
pub fn numbers_equal(a: &Number, b: &Number) -> (r: bool)
    ensures
        r == number_eq(*a, *b),
{
    match (a, b) {
        (Number::Int(x), Number::Int(y)) => *x == *y,
        (Number::Float(x), Number::Float(y)) => {
            x.is_f32() == y.is_f32() && !x.is_nan() && !y.is_nan() && x.key() == y.key()
        },
        _ => false,
    }
}

fn int_rank_of(i: &Int) -> (r: u8)
    ensures
        r as int == int_rank(*i),
{
    match i {
        Int::I8(_) => 0,
        Int::I16(_) => 1,
        Int::I32(_) => 2,
        Int::I64(_) => 3,
        Int::U8(_) => 4,
        Int::U16(_) => 5,
        Int::U32(_) => 6,
        Int::U64(_) => 7,
    }
}

fn sign_of(a: i128, b: i128) -> (r: i8)
    ensures
        r as int == sign(a - b),
{
    if a < b { -1 } else if a > b { 1 } else { 0 }
}

/// The order of two numbers, as `number_order` states it.
pub fn compare_numbers(a: &Number, b: &Number) -> (r: i8)
    ensures
        r as int == number_order(*a, *b),
{
    match (a, b) {
        (Number::Int(x), Number::Int(y)) => {
            let rx = int_rank_of(x);
            let ry = int_rank_of(y);
            if rx != ry {
                sign_of(rx as i128, ry as i128)
            } else {
                sign_of(x.to_i128(), y.to_i128())
            }
        },
        (Number::Int(_), Number::Float(_)) => -1,
        (Number::Float(_), Number::Int(_)) => 1,
        (Number::Float(x), Number::Float(y)) => {
            if x.is_f32() != y.is_f32() {
                if x.is_f32() { -1 } else { 1 }
            } else if x.is_nan() || y.is_nan() {
                0
            } else {
                sign_of(x.key(), y.key())
            }
        },
    }
}

/// The order of numbers as map keys: `number_order`, except that a NaN sorts after
/// every other float of its width and the NaNs of one width are alike, which makes it
/// a total preorder.
pub open spec fn number_key_order(a: Number, b: Number) -> int {
    match (a, b) {
        (Number::Float(x), Number::Float(y)) => if (x is F32) != (y is F32) {
            if x is F32 { -1 } else { 1 }
        } else if float_nan(x) && float_nan(y) {
            0
        } else if float_nan(x) {
            1
        } else if float_nan(y) {
            -1
        } else {
            sign(float_key(x) - float_key(y))
        },
        _ => number_order(a, b),
    }
}

/// `number_key_order` is antisymmetric and transitive.
pub proof fn lemma_number_key_order(a: Number, b: Number, c: Number)
    ensures
        number_key_order(a, b) == -number_key_order(b, a),
        -1 <= number_key_order(a, b) <= 1,
        number_key_order(a, b) <= 0 && number_key_order(b, c) <= 0 ==> number_key_order(a, c) <= 0,
        number_key_order(a, b) < 0 && number_key_order(b, c) <= 0 ==> number_key_order(a, c) < 0,
        number_key_order(a, b) <= 0 && number_key_order(b, c) < 0 ==> number_key_order(a, c) < 0,
{
}

/// The order of two number keys, as `number_key_order` states it.
pub fn compare_number_keys(a: &Number, b: &Number) -> (r: i8)
    ensures
        r as int == number_key_order(*a, *b),
{
    match (a, b) {
        (Number::Float(x), Number::Float(y)) => {
            if x.is_f32() != y.is_f32() {
                if x.is_f32() { -1 } else { 1 }
            } else if x.is_nan() && y.is_nan() {
                0
            } else if x.is_nan() {
                1
            } else if y.is_nan() {
                -1
            } else {
                sign_of(x.key(), y.key())
            }
        },
        _ => compare_numbers(a, b),
    }
}

/// A number read as `i8`: integers wrap, floats saturate (NaN reads as 0).
pub open spec fn number_as_i8(n: Number) -> i8 {
    match n {
        Number::Int(v) => int_value(v) as i8,
        Number::Float(Float::F32(b)) => f32_to_int(b, -0x80, 0x7f) as i8,
        Number::Float(Float::F64(b)) => f64_to_int(b, -0x80, 0x7f) as i8,
    }
}

/// A number read as `i16`: integers wrap, floats saturate (NaN reads as 0).
pub open spec fn number_as_i16(n: Number) -> i16 {
    match n {
        Number::Int(v) => int_value(v) as i16,
        Number::Float(Float::F32(b)) => f32_to_int(b, -0x8000, 0x7fff) as i16,
        Number::Float(Float::F64(b)) => f64_to_int(b, -0x8000, 0x7fff) as i16,
    }
}

/// A number read as `i32`: integers wrap, floats saturate (NaN reads as 0).
pub open spec fn number_as_i32(n: Number) -> i32 {
    match n {
        Number::Int(v) => int_value(v) as i32,
        Number::Float(Float::F32(b)) => f32_to_int(b, -0x8000_0000, 0x7fff_ffff) as i32,
        Number::Float(Float::F64(b)) => f64_to_int(b, -0x8000_0000, 0x7fff_ffff) as i32,
    }
}

/// A number read as `i64`: integers wrap, floats saturate (NaN reads as 0).
pub open spec fn number_as_i64(n: Number) -> i64 {
    match n {
        Number::Int(v) => int_value(v) as i64,
        Number::Float(Float::F32(b)) => f32_to_int(b, -0x8000_0000_0000_0000, 0x7fff_ffff_ffff_ffff) as i64,
        Number::Float(Float::F64(b)) => f64_to_int(b, -0x8000_0000_0000_0000, 0x7fff_ffff_ffff_ffff) as i64,
    }
}

/// A number read as `u8`: integers wrap, floats saturate (NaN reads as 0).
pub open spec fn number_as_u8(n: Number) -> u8 {
    match n {
        Number::Int(v) => int_value(v) as u8,
        Number::Float(Float::F32(b)) => f32_to_int(b, 0, 0xff) as u8,
        Number::Float(Float::F64(b)) => f64_to_int(b, 0, 0xff) as u8,
    }
}

/// A number read as `u16`: integers wrap, floats saturate (NaN reads as 0).
pub open spec fn number_as_u16(n: Number) -> u16 {
    match n {
        Number::Int(v) => int_value(v) as u16,
        Number::Float(Float::F32(b)) => f32_to_int(b, 0, 0xffff) as u16,
        Number::Float(Float::F64(b)) => f64_to_int(b, 0, 0xffff) as u16,
    }
}

/// A number read as `u32`: integers wrap, floats saturate (NaN reads as 0).
pub open spec fn number_as_u32(n: Number) -> u32 {
    match n {
        Number::Int(v) => int_value(v) as u32,
        Number::Float(Float::F32(b)) => f32_to_int(b, 0, 0xffff_ffff) as u32,
        Number::Float(Float::F64(b)) => f64_to_int(b, 0, 0xffff_ffff) as u32,
    }
}

/// A number read as `u64`: integers wrap, floats saturate (NaN reads as 0).
pub open spec fn number_as_u64(n: Number) -> u64 {
    match n {
        Number::Int(v) => int_value(v) as u64,
        Number::Float(Float::F32(b)) => f32_to_int(b, 0, 0xffff_ffff_ffff_ffff) as u64,
        Number::Float(Float::F64(b)) => f64_to_int(b, 0, 0xffff_ffff_ffff_ffff) as u64,
    }
}

impl Number {
    /// The reflected type of the number.
    pub fn to_type(&self) -> (r: Type)
        ensures
            r == number_type(*self),
    {
        match self {
            Number::Int(v) => v.to_type(),
            Number::Float(v) => v.to_type(),
        }
    }

    /// Whether this is an integer.
    pub fn is_int(&self) -> (r: bool)
        ensures
            r == (*self is Int),
    {
        matches!(self, Number::Int(_))
    }

    /// Whether this is a float.
    pub fn is_float(&self) -> (r: bool)
        ensures
            r == (*self is Float),
    {
        matches!(self, Number::Float(_))
    }

    /// The integer, if this is one.
    pub fn as_int(&self) -> (r: Option<&Int>)
        ensures
            r == match *self {
                Number::Int(v) => Some(&v),
                _ => None,
            },
    {
        match self {
            Number::Int(v) => Some(v),
            _ => None,
        }
    }

    /// A copy of the integer, if this is one.
    pub fn to_int(&self) -> (r: Option<Int>)
        ensures
            r == match *self {
                Number::Int(v) => Some(v),
                _ => None,
            },
    {
        match self {
            Number::Int(v) => Some(*v),
            _ => None,
        }
    }

    /// The float, if this is one.
    pub fn as_float(&self) -> (r: Option<&Float>)
        ensures
            r == match *self {
                Number::Float(v) => Some(&v),
                _ => None,
            },
    {
        match self {
            Number::Float(v) => Some(v),
            _ => None,
        }
    }

    /// A copy of the float, if this is one.
    pub fn to_float(&self) -> (r: Option<Float>)
        ensures
            r == match *self {
                Number::Float(v) => Some(v),
                _ => None,
            },
    {
        match self {
            Number::Float(v) => Some(*v),
            _ => None,
        }
    }

    /// Whether the number is nonzero (a NaN is).
    pub fn is_nonzero(&self) -> (r: bool)
        ensures
            r == match *self {
                Number::Int(v) => int_value(v) != 0,
                Number::Float(f) => float_nonzero(f),
            },
    {
        match self {
            Number::Int(v) => v.to_i128() != 0,
            Number::Float(f) => f.key() != 0 || f.is_nan(),
        }
    }

    /// The number as `i8`: an integer wraps, a float saturates and truncates
    /// toward zero, NaN gives 0.
    pub fn to_i8(&self) -> (r: i8)
        ensures
            r == number_as_i8(*self),
    {
        match self {
            Number::Int(v) => v.to_i128() as i8,
            Number::Float(Float::F32(b)) => f32_bits_to_int(*b, -0x80, 0x7f) as i8,
            Number::Float(Float::F64(b)) => f64_bits_to_int(*b, -0x80, 0x7f) as i8,
        }
    }

    /// The number as `i16`: an integer wraps, a float saturates and truncates
    /// toward zero, NaN gives 0.
    pub fn to_i16(&self) -> (r: i16)
        ensures
            r == number_as_i16(*self),
    {
        match self {
            Number::Int(v) => v.to_i128() as i16,
            Number::Float(Float::F32(b)) => f32_bits_to_int(*b, -0x8000, 0x7fff) as i16,
            Number::Float(Float::F64(b)) => f64_bits_to_int(*b, -0x8000, 0x7fff) as i16,
        }
    }

    /// The number as `i32`: an integer wraps, a float saturates and truncates
    /// toward zero, NaN gives 0.
    pub fn to_i32(&self) -> (r: i32)
        ensures
            r == number_as_i32(*self),
    {
        match self {
            Number::Int(v) => v.to_i128() as i32,
            Number::Float(Float::F32(b)) => f32_bits_to_int(*b, -0x8000_0000, 0x7fff_ffff) as i32,
            Number::Float(Float::F64(b)) => f64_bits_to_int(*b, -0x8000_0000, 0x7fff_ffff) as i32,
        }
    }

    /// The number as `i64`: an integer wraps, a float saturates and truncates
    /// toward zero, NaN gives 0.
    pub fn to_i64(&self) -> (r: i64)
        ensures
            r == number_as_i64(*self),
    {
        match self {
            Number::Int(v) => v.to_i128() as i64,
            Number::Float(Float::F32(b)) => f32_bits_to_int(*b, -0x8000_0000_0000_0000, 0x7fff_ffff_ffff_ffff) as i64,
            Number::Float(Float::F64(b)) => f64_bits_to_int(*b, -0x8000_0000_0000_0000, 0x7fff_ffff_ffff_ffff) as i64,
        }
    }

    /// The number as `u8`: an integer wraps, a float saturates and truncates
    /// toward zero, NaN gives 0.
    pub fn to_u8(&self) -> (r: u8)
        ensures
            r == number_as_u8(*self),
    {
        match self {
            Number::Int(v) => v.to_i128() as u8,
            Number::Float(Float::F32(b)) => f32_bits_to_int(*b, 0, 0xff) as u8,
            Number::Float(Float::F64(b)) => f64_bits_to_int(*b, 0, 0xff) as u8,
        }
    }

    /// The number as `u16`: an integer wraps, a float saturates and truncates
    /// toward zero, NaN gives 0.
    pub fn to_u16(&self) -> (r: u16)
        ensures
            r == number_as_u16(*self),
    {
        match self {
            Number::Int(v) => v.to_i128() as u16,
            Number::Float(Float::F32(b)) => f32_bits_to_int(*b, 0, 0xffff) as u16,
            Number::Float(Float::F64(b)) => f64_bits_to_int(*b, 0, 0xffff) as u16,
        }
    }

    /// The number as `u32`: an integer wraps, a float saturates and truncates
    /// toward zero, NaN gives 0.
    pub fn to_u32(&self) -> (r: u32)
        ensures
            r == number_as_u32(*self),
    {
        match self {
            Number::Int(v) => v.to_i128() as u32,
            Number::Float(Float::F32(b)) => f32_bits_to_int(*b, 0, 0xffff_ffff) as u32,
            Number::Float(Float::F64(b)) => f64_bits_to_int(*b, 0, 0xffff_ffff) as u32,
        }
    }

    /// The number as `u64`: an integer wraps, a float saturates and truncates
    /// toward zero, NaN gives 0.
    pub fn to_u64(&self) -> (r: u64)
        ensures
            r == number_as_u64(*self),
    {
        match self {
            Number::Int(v) => v.to_i128() as u64,
            Number::Float(Float::F32(b)) => f32_bits_to_int(*b, 0, 0xffff_ffff_ffff_ffff) as u64,
            Number::Float(Float::F64(b)) => f64_bits_to_int(*b, 0, 0xffff_ffff_ffff_ffff) as u64,
        }
    }
}

impl PartialEq for Number {
    fn eq(&self, other: &Self) -> (r: bool) {
        numbers_equal(self, other)
    }
}

impl vstd::std_specs::cmp::PartialEqSpecImpl for Number {
    open spec fn obeys_eq_spec() -> bool {
        true
    }

    open spec fn eq_spec(&self, other: &Number) -> bool {
        number_eq(*self, *other)
    }
}

/// Flipping the sign bit of a float leaves whether it is nonzero unchanged: a float and
/// its negation are zero together, and NaN stays NaN.
pub proof fn law_float_nonzero_sign(f: Float)
    ensures
        float_nonzero(f) == float_nonzero(match f {
            Float::F32(b) => Float::F32(b ^ 0x8000_0000u32),
            Float::F64(b) => Float::F64(b ^ 0x8000_0000_0000_0000u64),
        }),
        match f {
            Float::F32(b) => (b & 0x7fff_ffffu32) == 0 ==> !float_nonzero(f),
            Float::F64(b) => (b & 0x7fff_ffff_ffff_ffffu64) == 0 ==> !float_nonzero(f),
        },
{
    match f {
        Float::F32(b) => {
            let c = b ^ 0x8000_0000u32;
            assert(c & 0x7fff_ffffu32 == b & 0x7fff_ffffu32) by (bit_vector)
                requires c == b ^ 0x8000_0000u32;
        },
        Float::F64(b) => {
            let c = b ^ 0x8000_0000_0000_0000u64;
            assert(c & 0x7fff_ffff_ffff_ffffu64 == b & 0x7fff_ffff_ffff_ffffu64) by (bit_vector)
                requires c == b ^ 0x8000_0000_0000_0000u64;
        },
    }
}

/// Reading an integer as an integer type that can hold its value gives that value back,
/// whatever type the integer had.
pub proof fn law_int_read_keeps_value(v: Int)
    ensures
        -0x80 <= int_value(v) <= 0x7f ==> number_as_i8(Number::Int(v)) == int_value(v),
        -0x8000 <= int_value(v) <= 0x7fff ==> number_as_i16(Number::Int(v)) == int_value(v),
        -0x8000_0000 <= int_value(v) <= 0x7fff_ffff ==> number_as_i32(Number::Int(v)) == int_value(v),
        -0x8000_0000_0000_0000 <= int_value(v) <= 0x7fff_ffff_ffff_ffff ==> number_as_i64(Number::Int(v)) == int_value(v),
        0 <= int_value(v) <= 0xff ==> number_as_u8(Number::Int(v)) == int_value(v),
        0 <= int_value(v) <= 0xffff ==> number_as_u16(Number::Int(v)) == int_value(v),
        0 <= int_value(v) <= 0xffff_ffff ==> number_as_u32(Number::Int(v)) == int_value(v),
        0 <= int_value(v) ==> number_as_u64(Number::Int(v)) == int_value(v),
{
}

} // verus!
