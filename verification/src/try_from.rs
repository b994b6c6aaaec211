//! Conversion of reflected values back into Rust values.

use vstd::prelude::*;
use vstd::std_specs::convert::TryFromSpec;
use crate::number::{Int, Number};
use crate::text::Str;
use crate::value::{Value, ValueMap, ValueRef};

verus! {

impl TryFrom<Value> for bool {
    type Error = Value;

    fn try_from(v: Value) -> (r: Result<bool, Value>) {
        match v {
            Value::Bool(b) => Ok(b),
            other => Err(other),
        }
    }
}

impl vstd::std_specs::convert::TryFromSpecImpl<Value> for bool {
    open spec fn obeys_try_from_spec() -> bool {
        true
    }

    open spec fn try_from_spec(v: Value) -> Result<bool, Value> {
        match v {
            Value::Bool(b) => Ok(b),
            other => Err(other),
        }
    }
}

impl TryFrom<Value> for i8 {
    type Error = Value;

    fn try_from(v: Value) -> (r: Result<i8, Value>) {
        match v {
            Value::Number(Number::Int(Int::I8(x))) => Ok(x),
            other => Err(other),
        }
    }
}

impl vstd::std_specs::convert::TryFromSpecImpl<Value> for i8 {
    open spec fn obeys_try_from_spec() -> bool {
        true
    }

    open spec fn try_from_spec(v: Value) -> Result<i8, Value> {
        match v {
            Value::Number(Number::Int(Int::I8(x))) => Ok(x),
            other => Err(other),
        }
    }
}

impl TryFrom<Value> for i16 {
    type Error = Value;

    fn try_from(v: Value) -> (r: Result<i16, Value>) {
        match v {
            Value::Number(Number::Int(Int::I16(x))) => Ok(x),
            other => Err(other),
        }
    }
}

impl vstd::std_specs::convert::TryFromSpecImpl<Value> for i16 {
    open spec fn obeys_try_from_spec() -> bool {
        true
    }

    open spec fn try_from_spec(v: Value) -> Result<i16, Value> {
        match v {
            Value::Number(Number::Int(Int::I16(x))) => Ok(x),
            other => Err(other),
        }
    }
}

impl TryFrom<Value> for i32 {
    type Error = Value;

    fn try_from(v: Value) -> (r: Result<i32, Value>) {
        match v {
            Value::Number(Number::Int(Int::I32(x))) => Ok(x),
            other => Err(other),
        }
    }
}

impl vstd::std_specs::convert::TryFromSpecImpl<Value> for i32 {
    open spec fn obeys_try_from_spec() -> bool {
        true
    }

    open spec fn try_from_spec(v: Value) -> Result<i32, Value> {
        match v {
            Value::Number(Number::Int(Int::I32(x))) => Ok(x),
            other => Err(other),
        }
    }
}

impl TryFrom<Value> for i64 {
    type Error = Value;

    fn try_from(v: Value) -> (r: Result<i64, Value>) {
        match v {
            Value::Number(Number::Int(Int::I64(x))) => Ok(x),
            other => Err(other),
        }
    }
}

impl vstd::std_specs::convert::TryFromSpecImpl<Value> for i64 {
    open spec fn obeys_try_from_spec() -> bool {
        true
    }

    open spec fn try_from_spec(v: Value) -> Result<i64, Value> {
        match v {
            Value::Number(Number::Int(Int::I64(x))) => Ok(x),
            other => Err(other),
        }
    }
}

impl TryFrom<Value> for u8 {
    type Error = Value;

    fn try_from(v: Value) -> (r: Result<u8, Value>) {
        match v {
            Value::Number(Number::Int(Int::U8(x))) => Ok(x),
            other => Err(other),
        }
    }
}

impl vstd::std_specs::convert::TryFromSpecImpl<Value> for u8 {
    open spec fn obeys_try_from_spec() -> bool {
        true
    }

    open spec fn try_from_spec(v: Value) -> Result<u8, Value> {
        match v {
            Value::Number(Number::Int(Int::U8(x))) => Ok(x),
            other => Err(other),
        }
    }
}

impl TryFrom<Value> for u16 {
    type Error = Value;

    fn try_from(v: Value) -> (r: Result<u16, Value>) {
        match v {
            Value::Number(Number::Int(Int::U16(x))) => Ok(x),
            other => Err(other),
        }
    }
}

impl vstd::std_specs::convert::TryFromSpecImpl<Value> for u16 {
    open spec fn obeys_try_from_spec() -> bool {
        true
    }

    open spec fn try_from_spec(v: Value) -> Result<u16, Value> {
        match v {
            Value::Number(Number::Int(Int::U16(x))) => Ok(x),
            other => Err(other),
        }
    }
}

impl TryFrom<Value> for u32 {
    type Error = Value;

    fn try_from(v: Value) -> (r: Result<u32, Value>) {
        match v {
            Value::Number(Number::Int(Int::U32(x))) => Ok(x),
            other => Err(other),
        }
    }
}

impl vstd::std_specs::convert::TryFromSpecImpl<Value> for u32 {
    open spec fn obeys_try_from_spec() -> bool {
        true
    }

    open spec fn try_from_spec(v: Value) -> Result<u32, Value> {
        match v {
            Value::Number(Number::Int(Int::U32(x))) => Ok(x),
            other => Err(other),
        }
    }
}

impl TryFrom<Value> for u64 {
    type Error = Value;

    fn try_from(v: Value) -> (r: Result<u64, Value>) {
        match v {
            Value::Number(Number::Int(Int::U64(x))) => Ok(x),
            other => Err(other),
        }
    }
}

impl vstd::std_specs::convert::TryFromSpecImpl<Value> for u64 {
    open spec fn obeys_try_from_spec() -> bool {
        true
    }

    open spec fn try_from_spec(v: Value) -> Result<u64, Value> {
        match v {
            Value::Number(Number::Int(Int::U64(x))) => Ok(x),
            other => Err(other),
        }
    }
}

impl TryFrom<Value> for Number {
    type Error = Value;

    fn try_from(v: Value) -> (r: Result<Number, Value>) {
        match v {
            Value::Number(n) => Ok(n),
            other => Err(other),
        }
    }
}

impl vstd::std_specs::convert::TryFromSpecImpl<Value> for Number {
    open spec fn obeys_try_from_spec() -> bool {
        true
    }

    open spec fn try_from_spec(v: Value) -> Result<Number, Value> {
        match v {
            Value::Number(n) => Ok(n),
            other => Err(other),
        }
    }
}

impl TryFrom<Value> for Str {
    type Error = Value;

    fn try_from(v: Value) -> (r: Result<Str, Value>) {
        match v {
            Value::Str(s) => Ok(s),
            other => Err(other),
        }
    }
}

impl vstd::std_specs::convert::TryFromSpecImpl<Value> for Str {
    open spec fn obeys_try_from_spec() -> bool {
        true
    }

    open spec fn try_from_spec(v: Value) -> Result<Str, Value> {
        match v {
            Value::Str(s) => Ok(s),
            other => Err(other),
        }
    }
}

impl TryFrom<Value> for String {
    type Error = Value;

    fn try_from(v: Value) -> (r: Result<String, Value>) {
        match v {
            Value::Str(s) => Ok(s.0),
            other => Err(other),
        }
    }
}

impl vstd::std_specs::convert::TryFromSpecImpl<Value> for String {
    open spec fn obeys_try_from_spec() -> bool {
        true
    }

    open spec fn try_from_spec(v: Value) -> Result<String, Value> {
        match v {
            Value::Str(s) => Ok(s.0),
            other => Err(other),
        }
    }
}

impl TryFrom<Value> for ValueMap {
    type Error = Value;

    fn try_from(v: Value) -> (r: Result<ValueMap, Value>) {
        match v {
            Value::Mapping(m) => Ok(m),
            other => Err(other),
        }
    }
}

impl vstd::std_specs::convert::TryFromSpecImpl<Value> for ValueMap {
    open spec fn obeys_try_from_spec() -> bool {
        true
    }

    open spec fn try_from_spec(v: Value) -> Result<ValueMap, Value> {
        match v {
            Value::Mapping(m) => Ok(m),
            other => Err(other),
        }
    }
}

impl Value {
    /// The value converted into `T`, if `T` takes it.
    pub fn cast<T: TryFrom<Value>>(self) -> (r: Option<T>)
        ensures
            T::obeys_try_from_spec() ==> match T::try_from_spec(self) {
                Ok(t) => r == Some(t),
                Err(_) => r is None,
            },
    {
        match T::try_from(self) {
            Ok(t) => Some(t),
            Err(_) => None,
        }
    }

    /// Whether `T` takes the value.
    pub fn is<T: TryFrom<Value>>(&self) -> (r: bool)
        ensures
            T::obeys_try_from_spec() ==> r == (T::try_from_spec(*self) is Ok),
    {
        match T::try_from(self.clone()) {
            Ok(_) => true,
            Err(_) => false,
        }
    }
}

impl<'a> ValueRef<'a> {
    /// The borrowed value converted into `T`, if `T` takes it.
    pub fn cast<T: for<'b> TryFrom<ValueRef<'b>>>(self) -> (r: Option<T>)
        ensures
            <T as TryFromSpec<ValueRef<'a>>>::obeys_try_from_spec() ==> match <T as TryFromSpec<
                ValueRef<'a>,
            >>::try_from_spec(self) {
                Ok(t) => r == Some(t),
                Err(_) => r is None,
            },
    {
        match T::try_from(self) {
            Ok(t) => Some(t),
            Err(_) => None,
        }
    }

    /// Whether `T` takes the borrowed value.
    pub fn is<T: for<'b> TryFrom<ValueRef<'b>>>(&self) -> (r: bool)
        ensures
            <T as TryFromSpec<ValueRef<'a>>>::obeys_try_from_spec() ==> r == (<T as TryFromSpec<
                ValueRef<'a>,
            >>::try_from_spec(*self) is Ok),
    {
        match T::try_from(*self) {
            Ok(_) => true,
            Err(_) => false,
        }
    }
}

} // verus!
