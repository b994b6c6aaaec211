//! Conversion of Rust values into reflected values.

use std::sync::Arc;
use vstd::prelude::*;
use crate::dynamic::{sequence_ref, slice_of, Dynamic, DynamicRef, OwnedSequence, Sequence};
use crate::number::{Int, Number};
use crate::text::Str;
use crate::types::{BoolType, IntType, NumberType, SliceType, StrType, Type};
use crate::value::{borrows, owned_from, value_ref_type, Value, ValueMap, ValueRef};

verus! {

/// Types with a reflected type known without a value.
pub trait TypeOf {
    /// The type that `type_of` reports.
    spec fn spec_type_of() -> Type;

    fn type_of() -> (r: Type)
        ensures
            r == Self::spec_type_of(),
    ;
}

/// Values that convert into reflected values.
pub trait ToValue {
    /// What `to_value` may return.
    spec fn value_ensures(&self, r: Value) -> bool;

    /// The value as an owned reflected value.
    fn to_value(&self) -> (r: Value)
        ensures
            self.value_ensures(r),
    ;

    /// What `to_value_ref` may return.
    spec fn value_ref_ensures(&self, r: ValueRef) -> bool;

    /// The value as a borrowed reflected value.
    fn to_value_ref(&self) -> (r: ValueRef<'_>)
        ensures
            self.value_ref_ensures(r),
    ;
}

/// Values that can be copied into a box.
pub trait ToBox<T> {
    /// A boxed copy.
    fn to_box(&self) -> (r: Box<T>);
}

impl<T: Clone> ToBox<T> for T {
    fn to_box(&self) -> (r: Box<T>)
        ensures
            vstd::pervasive::cloned(*self, *r),
    {
        Box::new(self.clone())
    }
}

impl TypeOf for bool {
    open spec fn spec_type_of() -> Type {
        Type::Bool(BoolType)
    }

    fn type_of() -> (r: Type) {
        Type::Bool(BoolType)
    }
}

impl ToValue for bool {
    open spec fn value_ensures(&self, r: Value) -> bool {
        r == Value::Bool(*self)
    }

    fn to_value(&self) -> (r: Value) {
        Value::Bool(*self)
    }

    open spec fn value_ref_ensures(&self, r: ValueRef) -> bool {
        r == ValueRef::Bool(*self)
    }

    fn to_value_ref(&self) -> (r: ValueRef<'_>) {
        ValueRef::Bool(*self)
    }
}

impl TypeOf for i8 {
    open spec fn spec_type_of() -> Type {
        Type::Number(NumberType::Int(IntType::I8))
    }

    fn type_of() -> (r: Type) {
        Type::Number(NumberType::Int(IntType::I8))
    }
}

impl ToValue for i8 {
    open spec fn value_ensures(&self, r: Value) -> bool {
        r == Value::Number(Number::Int(Int::I8(*self)))
    }

    fn to_value(&self) -> (r: Value) {
        Value::Number(Number::Int(Int::I8(*self)))
    }

    open spec fn value_ref_ensures(&self, r: ValueRef) -> bool {
        r == ValueRef::Number(Number::Int(Int::I8(*self)))
    }

    fn to_value_ref(&self) -> (r: ValueRef<'_>) {
        ValueRef::Number(Number::Int(Int::I8(*self)))
    }
}

impl TypeOf for i16 {
    open spec fn spec_type_of() -> Type {
        Type::Number(NumberType::Int(IntType::I16))
    }

    fn type_of() -> (r: Type) {
        Type::Number(NumberType::Int(IntType::I16))
    }
}

impl ToValue for i16 {
    open spec fn value_ensures(&self, r: Value) -> bool {
        r == Value::Number(Number::Int(Int::I16(*self)))
    }

    fn to_value(&self) -> (r: Value) {
        Value::Number(Number::Int(Int::I16(*self)))
    }

    open spec fn value_ref_ensures(&self, r: ValueRef) -> bool {
        r == ValueRef::Number(Number::Int(Int::I16(*self)))
    }

    fn to_value_ref(&self) -> (r: ValueRef<'_>) {
        ValueRef::Number(Number::Int(Int::I16(*self)))
    }
}

impl TypeOf for i32 {
    open spec fn spec_type_of() -> Type {
        Type::Number(NumberType::Int(IntType::I32))
    }

    fn type_of() -> (r: Type) {
        Type::Number(NumberType::Int(IntType::I32))
    }
}

impl ToValue for i32 {
    open spec fn value_ensures(&self, r: Value) -> bool {
        r == Value::Number(Number::Int(Int::I32(*self)))
    }

    fn to_value(&self) -> (r: Value) {
        Value::Number(Number::Int(Int::I32(*self)))
    }

    open spec fn value_ref_ensures(&self, r: ValueRef) -> bool {
        r == ValueRef::Number(Number::Int(Int::I32(*self)))
    }

    fn to_value_ref(&self) -> (r: ValueRef<'_>) {
        ValueRef::Number(Number::Int(Int::I32(*self)))
    }
}

impl TypeOf for i64 {
    open spec fn spec_type_of() -> Type {
        Type::Number(NumberType::Int(IntType::I64))
    }

    fn type_of() -> (r: Type) {
        Type::Number(NumberType::Int(IntType::I64))
    }
}

impl ToValue for i64 {
    open spec fn value_ensures(&self, r: Value) -> bool {
        r == Value::Number(Number::Int(Int::I64(*self)))
    }

    fn to_value(&self) -> (r: Value) {
        Value::Number(Number::Int(Int::I64(*self)))
    }

    open spec fn value_ref_ensures(&self, r: ValueRef) -> bool {
        r == ValueRef::Number(Number::Int(Int::I64(*self)))
    }

    fn to_value_ref(&self) -> (r: ValueRef<'_>) {
        ValueRef::Number(Number::Int(Int::I64(*self)))
    }
}

impl TypeOf for u8 {
    open spec fn spec_type_of() -> Type {
        Type::Number(NumberType::Int(IntType::U8))
    }

    fn type_of() -> (r: Type) {
        Type::Number(NumberType::Int(IntType::U8))
    }
}

impl ToValue for u8 {
    open spec fn value_ensures(&self, r: Value) -> bool {
        r == Value::Number(Number::Int(Int::U8(*self)))
    }

    fn to_value(&self) -> (r: Value) {
        Value::Number(Number::Int(Int::U8(*self)))
    }

    open spec fn value_ref_ensures(&self, r: ValueRef) -> bool {
        r == ValueRef::Number(Number::Int(Int::U8(*self)))
    }

    fn to_value_ref(&self) -> (r: ValueRef<'_>) {
        ValueRef::Number(Number::Int(Int::U8(*self)))
    }
}

impl TypeOf for u16 {
    open spec fn spec_type_of() -> Type {
        Type::Number(NumberType::Int(IntType::U16))
    }

    fn type_of() -> (r: Type) {
        Type::Number(NumberType::Int(IntType::U16))
    }
}

impl ToValue for u16 {
    open spec fn value_ensures(&self, r: Value) -> bool {
        r == Value::Number(Number::Int(Int::U16(*self)))
    }

    fn to_value(&self) -> (r: Value) {
        Value::Number(Number::Int(Int::U16(*self)))
    }

    open spec fn value_ref_ensures(&self, r: ValueRef) -> bool {
        r == ValueRef::Number(Number::Int(Int::U16(*self)))
    }

    fn to_value_ref(&self) -> (r: ValueRef<'_>) {
        ValueRef::Number(Number::Int(Int::U16(*self)))
    }
}

impl TypeOf for u32 {
    open spec fn spec_type_of() -> Type {
        Type::Number(NumberType::Int(IntType::U32))
    }

    fn type_of() -> (r: Type) {
        Type::Number(NumberType::Int(IntType::U32))
    }
}

impl ToValue for u32 {
    open spec fn value_ensures(&self, r: Value) -> bool {
        r == Value::Number(Number::Int(Int::U32(*self)))
    }

    fn to_value(&self) -> (r: Value) {
        Value::Number(Number::Int(Int::U32(*self)))
    }

    open spec fn value_ref_ensures(&self, r: ValueRef) -> bool {
        r == ValueRef::Number(Number::Int(Int::U32(*self)))
    }

    fn to_value_ref(&self) -> (r: ValueRef<'_>) {
        ValueRef::Number(Number::Int(Int::U32(*self)))
    }
}

impl TypeOf for u64 {
    open spec fn spec_type_of() -> Type {
        Type::Number(NumberType::Int(IntType::U64))
    }

    fn type_of() -> (r: Type) {
        Type::Number(NumberType::Int(IntType::U64))
    }
}

impl ToValue for u64 {
    open spec fn value_ensures(&self, r: Value) -> bool {
        r == Value::Number(Number::Int(Int::U64(*self)))
    }

    fn to_value(&self) -> (r: Value) {
        Value::Number(Number::Int(Int::U64(*self)))
    }

    open spec fn value_ref_ensures(&self, r: ValueRef) -> bool {
        r == ValueRef::Number(Number::Int(Int::U64(*self)))
    }

    fn to_value_ref(&self) -> (r: ValueRef<'_>) {
        ValueRef::Number(Number::Int(Int::U64(*self)))
    }
}

impl TypeOf for String {
    open spec fn spec_type_of() -> Type {
        Type::Str(StrType)
    }

    fn type_of() -> (r: Type) {
        Type::Str(StrType)
    }
}

impl ToValue for String {
    open spec fn value_ensures(&self, r: Value) -> bool {
        r is Str && r->Str_0@ == self@
    }

    fn to_value(&self) -> (r: Value) {
        Value::Str(Str::new(self.as_str()))
    }

    open spec fn value_ref_ensures(&self, r: ValueRef) -> bool {
        r is Str && r->Str_0@ == self@
    }

    fn to_value_ref(&self) -> (r: ValueRef<'_>) {
        ValueRef::Str(self.as_str())
    }
}

impl ToValue for str {
    open spec fn value_ensures(&self, r: Value) -> bool {
        r is Str && r->Str_0@ == self@
    }

    fn to_value(&self) -> (r: Value) {
        Value::Str(Str::new(self))
    }

    open spec fn value_ref_ensures(&self, r: ValueRef) -> bool {
        r is Str && r->Str_0@ == self@
    }

    fn to_value_ref(&self) -> (r: ValueRef<'_>) {
        ValueRef::Str(self)
    }
}

impl<'s> ToValue for &'s str {
    open spec fn value_ensures(&self, r: Value) -> bool {
        r is Str && r->Str_0@ == (*self)@
    }

    fn to_value(&self) -> (r: Value) {
        Value::Str(Str::new(*self))
    }

    open spec fn value_ref_ensures(&self, r: ValueRef) -> bool {
        r is Str && r->Str_0@ == (*self)@
    }

    fn to_value_ref(&self) -> (r: ValueRef<'_>) {
        ValueRef::Str(*self)
    }
}

impl ToValue for Str {
    open spec fn value_ensures(&self, r: Value) -> bool {
        r == Value::Str(*self)
    }

    fn to_value(&self) -> (r: Value) {
        Value::Str(self.clone())
    }

    open spec fn value_ref_ensures(&self, r: ValueRef) -> bool {
        r is Str && r->Str_0@ == self@
    }

    fn to_value_ref(&self) -> (r: ValueRef<'_>) {
        ValueRef::Str(self.as_str())
    }
}

impl ToValue for Number {
    open spec fn value_ensures(&self, r: Value) -> bool {
        r == Value::Number(*self)
    }

    fn to_value(&self) -> (r: Value) {
        Value::Number(*self)
    }

    open spec fn value_ref_ensures(&self, r: ValueRef) -> bool {
        r == ValueRef::Number(*self)
    }

    fn to_value_ref(&self) -> (r: ValueRef<'_>) {
        ValueRef::Number(*self)
    }
}

impl TypeOf for Value {
    open spec fn spec_type_of() -> Type {
        Type::Any
    }

    fn type_of() -> (r: Type) {
        Type::Any
    }
}

impl ToValue for Value {
    open spec fn value_ensures(&self, r: Value) -> bool {
        r == *self
    }

    fn to_value(&self) -> (r: Value) {
        self.clone()
    }

    open spec fn value_ref_ensures(&self, r: ValueRef) -> bool {
        borrows(*self, r)
    }

    fn to_value_ref(&self) -> (r: ValueRef<'_>) {
        self.as_ref()
    }
}

impl ToValue for ValueMap {
    open spec fn value_ensures(&self, r: Value) -> bool {
        r == Value::Mapping(*self)
    }

    fn to_value(&self) -> (r: Value) {
        Value::Mapping(self.clone())
    }

    open spec fn value_ref_ensures(&self, r: ValueRef) -> bool {
        r is Mapping && *r->Mapping_0 == *self
    }

    fn to_value_ref(&self) -> (r: ValueRef<'_>) {
        ValueRef::Mapping(self)
    }
}

impl<'a> ToValue for ValueRef<'a> {
    open spec fn value_ensures(&self, r: Value) -> bool {
        owned_from(*self, r)
    }

    fn to_value(&self) -> (r: Value) {
        self.to_owned()
    }

    open spec fn value_ref_ensures(&self, r: ValueRef) -> bool {
        r == *self
    }

    fn to_value_ref(&self) -> (r: ValueRef<'_>) {
        *self
    }
}

impl<T: TypeOf> TypeOf for Vec<T> {
    open spec fn spec_type_of() -> Type {
        slice_of(T::spec_type_of())
    }

    fn type_of() -> (r: Type) {
        Type::Slice(SliceType { ty: Arc::new(T::type_of()), capacity: None })
    }
}

impl<T: ToValue + TypeOf> Sequence for Vec<T> {
    open spec fn spec_type(&self) -> Type {
        slice_of(T::spec_type_of())
    }

    fn to_type(&self) -> (r: Type) {
        <Vec<T> as TypeOf>::type_of()
    }

    open spec fn spec_len(&self) -> nat {
        self@.len()
    }

    fn len(&self) -> (r: usize) {
        self.len()
    }

    open spec fn index_ensures(&self, i: int, r: Value) -> bool {
        if 0 <= i < self@.len() {
            self@[i].value_ensures(r)
        } else {
            r is Null
        }
    }

    fn index(&self, i: usize) -> (r: Value) {
        if i < self.len() {
            self[i].to_value()
        } else {
            Value::Null
        }
    }
}

/// A vector converts into an owned sequence of its elements' values, typed as a slice
/// of `any`.
impl<T: ToValue + TypeOf> ToValue for Vec<T> {
    open spec fn value_ensures(&self, r: Value) -> bool {
        &&& r is Dynamic
        &&& r->Dynamic_0 is Sequence
        &&& r->Dynamic_0->Sequence_0.seq_type() == slice_of(Type::Any)
        &&& r->Dynamic_0->Sequence_0@.len() == self@.len()
        &&& forall|i: int| 0 <= i < self@.len() ==> self@[i].value_ensures(#[trigger] r->Dynamic_0->Sequence_0@[i])
    }

    fn to_value(&self) -> (r: Value) {
        let mut data: Vec<Value> = Vec::new();
        let mut i: usize = 0;
        while i < self.len()
            invariant
                i <= self@.len(),
                data@.len() == i,
                forall|j: int| 0 <= j < i ==> self@[j].value_ensures(#[trigger] data@[j]),
            decreases self@.len() - i,
        {
            data.push(self[i].to_value());
            i = i + 1;
        }
        let ty = Type::Slice(SliceType { ty: Arc::new(Type::Any), capacity: None });
        Value::Dynamic(Dynamic::Sequence(OwnedSequence::with_type(ty, data)))
    }

    open spec fn value_ref_ensures(&self, r: ValueRef) -> bool {
        r is Dynamic && r->Dynamic_0 is Sequence && r->Dynamic_0->Sequence_0 == sequence_ref(self)
    }

    fn to_value_ref(&self) -> (r: ValueRef<'_>) {
        ValueRef::Dynamic(DynamicRef::from_sequence(self))
    }
}

impl<T: ToValue + TypeOf, const N: usize> Sequence for [T; N] {
    open spec fn spec_type(&self) -> Type {
        Type::Slice(SliceType { ty: Arc::new(T::spec_type_of()), capacity: Some(N) })
    }

    fn to_type(&self) -> (r: Type) {
        Type::Slice(SliceType { ty: Arc::new(T::type_of()), capacity: Some(N) })
    }

    open spec fn spec_len(&self) -> nat {
        N as nat
    }

    fn len(&self) -> (r: usize) {
        N
    }

    open spec fn index_ensures(&self, i: int, r: Value) -> bool {
        if 0 <= i < N {
            self@[i].value_ensures(r)
        } else {
            r is Null
        }
    }

    fn index(&self, i: usize) -> (r: Value) {
        if i < N {
            self[i].to_value()
        } else {
            Value::Null
        }
    }
}

/// An array converts into an owned sequence of its elements' values, typed as a slice
/// of `any`.
impl<T: ToValue + TypeOf, const N: usize> ToValue for [T; N] {
    open spec fn value_ensures(&self, r: Value) -> bool {
        &&& r is Dynamic
        &&& r->Dynamic_0 is Sequence
        &&& r->Dynamic_0->Sequence_0.seq_type() == slice_of(Type::Any)
        &&& r->Dynamic_0->Sequence_0@.len() == N
        &&& forall|i: int| 0 <= i < N ==> self@[i].value_ensures(#[trigger] r->Dynamic_0->Sequence_0@[i])
    }

    fn to_value(&self) -> (r: Value) {
        let mut data: Vec<Value> = Vec::new();
        let mut i: usize = 0;
        while i < N
            invariant
                i <= N,
                self@.len() == N,
                data@.len() == i,
                forall|j: int| 0 <= j < i ==> self@[j].value_ensures(#[trigger] data@[j]),
            decreases N - i,
        {
            data.push(self[i].to_value());
            i = i + 1;
        }
        let ty = Type::Slice(SliceType { ty: Arc::new(Type::Any), capacity: None });
        Value::Dynamic(Dynamic::Sequence(OwnedSequence::with_type(ty, data)))
    }

    open spec fn value_ref_ensures(&self, r: ValueRef) -> bool {
        r is Dynamic && r->Dynamic_0 is Sequence && r->Dynamic_0->Sequence_0 == sequence_ref(self)
    }

    fn to_value_ref(&self) -> (r: ValueRef<'_>) {
        ValueRef::Dynamic(DynamicRef::from_sequence(self))
    }
}

/// A slice of borrowed values is a sequence typed by its first element (`any` when empty).
impl<'a> Sequence for &'a [ValueRef<'a>] {
    open spec fn spec_type(&self) -> Type {
        slice_of(if self@.len() > 0 { value_ref_type(self@[0]) } else { Type::Any })
    }

    fn to_type(&self) -> (r: Type) {
        let elem = if self.len() > 0 { self[0].to_type() } else { Type::Any };
        Type::Slice(SliceType { ty: Arc::new(elem), capacity: None })
    }

    open spec fn spec_len(&self) -> nat {
        self@.len()
    }

    fn len(&self) -> (r: usize) {
        <[ValueRef<'a>]>::len(self)
    }

    open spec fn index_ensures(&self, i: int, r: Value) -> bool {
        if 0 <= i < self@.len() {
            owned_from(self@[i], r)
        } else {
            r is Null
        }
    }

    fn index(&self, i: usize) -> (r: Value) {
        if i < <[ValueRef<'a>]>::len(self) {
            self[i].to_owned()
        } else {
            Value::Null
        }
    }
}

} // verus!
