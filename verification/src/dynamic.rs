//! Values whose behavior comes from an implementation of `Object`, `Sequence` or `Callable`.

use std::sync::Arc;
use vstd::prelude::*;
use crate::field::{field_name_text, Field, FieldName};
use crate::text::Str;
use crate::types::{any_map_type, MapType, SliceType, Type};
use crate::value::{map_insert, Value, ValueMap};

verus! {

/// Implemented by types that reflect their type and the values of their fields.
pub trait Object {
    /// The type that `to_type` reports.
    spec fn spec_type(&self) -> Type;

    fn to_type(&self) -> (r: Type)
        ensures
            r == self.spec_type(),
    ;

    /// What `field(name)` may return.
    spec fn field_ensures(&self, name: Seq<char>, r: Value) -> bool;

    /// The value of the field `name`; `Undefined` when there is none.
    fn field(&self, name: &str) -> (r: Value)
        ensures
            self.field_ensures(name@, r),
    ;

    /// What `entries` may return.
    spec fn entries_ensures(&self, r: Option<ValueMap>) -> bool;

    /// The object's entries as a map, when it is map-like.
    fn entries(&self) -> (r: Option<ValueMap>)
        ensures
            self.entries_ensures(r),
    ;

    /// What `call(name, args)` may return.
    spec fn method_ensures(&self, name: Seq<char>, args: Seq<Value>, r: Result<Value, String>) -> bool;

    /// Invokes the method `name` with `args`.
    fn call(&self, name: &str, args: &[Value]) -> (r: Result<Value, String>)
        ensures
            self.method_ensures(name@, args@, r),
    ;
}

/// Implemented by types that reflect their type and the values of their elements.
pub trait Sequence {
    /// The type that `to_type` reports.
    spec fn spec_type(&self) -> Type;

    fn to_type(&self) -> (r: Type)
        ensures
            r == self.spec_type(),
    ;

    /// The number of elements.
    spec fn spec_len(&self) -> nat;

    fn len(&self) -> (r: usize)
        ensures
            r as nat == self.spec_len(),
    ;

    /// What `index(i)` may return.
    spec fn index_ensures(&self, i: int, r: Value) -> bool;

    /// The element at `i`.
    fn index(&self, i: usize) -> (r: Value)
        ensures
            self.index_ensures(i as int, r),
    ;

    /// Whether there are no elements.
    fn is_empty(&self) -> (r: bool)
        ensures
            r == (self.spec_len() == 0),
    {
        self.len() == 0
    }
}

/// Implemented by types that reflect their type and can be invoked with arguments.
pub trait Callable {
    /// The type that `to_type` reports.
    spec fn spec_type(&self) -> Type;

    fn to_type(&self) -> (r: Type)
        ensures
            r == self.spec_type(),
    ;

    /// What `call(args)` may return.
    spec fn call_ensures(&self, args: Seq<Value>, r: Result<Value, String>) -> bool;

    /// Invokes the value with `args`.
    fn call(&self, args: &[Value]) -> (r: Result<Value, String>)
        ensures
            self.call_ensures(args@, r),
    ;
}

/// Implemented by types that reflect their type.
pub trait Dyn {
    /// The type that `to_type` reports.
    spec fn spec_type(&self) -> Type;

    fn to_type(&self) -> (r: Type)
        ensures
            r == self.spec_type(),
    ;
}

/// A sequence of values that the library holds itself.
pub struct OwnedSequence {
    ty: Type,
    data: Arc<Vec<Value>>,
}

impl View for OwnedSequence {
    type V = Seq<Value>;

    closed spec fn view(&self) -> Seq<Value> {
        (*self.data)@
    }
}

/// `[T]` with no fixed length.
pub open spec fn slice_of(elem: Type) -> Type {
    Type::Slice(SliceType { ty: Arc::new(elem), capacity: None })
}

impl OwnedSequence {
    /// The type the sequence reports.
    pub closed spec fn seq_type(&self) -> Type {
        self.ty
    }

    /// A sequence of `data`, typed as a slice of its first element's type (`any` when empty).
    pub fn new(data: Vec<Value>) -> (r: Self)
        ensures
            r@ == data@,
            r.seq_type() == slice_of(if data@.len() > 0 { crate::value::value_type(data@[0]) } else { Type::Any }),
    {
        let elem = if data.len() > 0 { data[0].to_type() } else { Type::Any };
        OwnedSequence { ty: Type::Slice(SliceType { ty: Arc::new(elem), capacity: None }), data: Arc::new(data) }
    }

    /// The element at `i`, borrowed.
    pub fn element(&self, i: usize) -> (r: &Value)
        requires
            i < self@.len(),
        ensures
            *r == self@[i as int],
    {
        &self.data[i]
    }

    /// A sequence of `data` reporting the type `ty`.
    pub fn with_type(ty: Type, data: Vec<Value>) -> (r: Self)
        ensures
            r@ == data@,
            r.seq_type() == ty,
    {
        OwnedSequence { ty, data: Arc::new(data) }
    }
}

impl Clone for OwnedSequence {
    fn clone(&self) -> (r: Self)
        ensures
            r == *self,
    {
        OwnedSequence { ty: self.ty.clone(), data: self.data.clone() }
    }
}

impl Sequence for OwnedSequence {
    open spec fn spec_type(&self) -> Type {
        self.seq_type()
    }

    fn to_type(&self) -> (r: Type) {
        self.ty.clone()
    }

    open spec fn spec_len(&self) -> nat {
        self@.len()
    }

    fn len(&self) -> (r: usize) {
        self.data.len()
    }

    open spec fn index_ensures(&self, i: int, r: Value) -> bool {
        if 0 <= i < self@.len() {
            r == self@[i]
        } else {
            r is Null
        }
    }

    fn index(&self, i: usize) -> (r: Value) {
        if i < self.data.len() {
            self.data[i].clone()
        } else {
            Value::Null
        }
    }
}

/// A dynamic value that the library holds: a sequence of values.
pub enum Dynamic {
    Sequence(OwnedSequence),
}

/// A borrowed value whose behavior comes from one of the traits above.
#[derive(Clone, Copy)]
pub enum DynamicRef<'a> {
    Object(&'a dyn Object),
    Sequence(&'a dyn Sequence),
    Callable(&'a dyn Callable),
    Bound { object: &'a dyn Object, callable: &'a dyn Callable },
}

/// The type a dynamic value reports.
pub open spec fn dynamic_type(d: Dynamic) -> Type {
    match d {
        Dynamic::Sequence(v) => v.seq_type(),
    }
}

/// The type a borrowed dynamic value reports: that of its object, sequence or callable.
pub open spec fn dynamic_ref_type(d: DynamicRef) -> Type {
    match d {
        DynamicRef::Object(v) => v.spec_type(),
        DynamicRef::Sequence(v) => v.spec_type(),
        DynamicRef::Callable(v) => v.spec_type(),
        DynamicRef::Bound { object, .. } => object.spec_type(),
    }
}

/// The number of elements of a dynamic value.
pub open spec fn dynamic_len(d: Dynamic) -> nat {
    match d {
        Dynamic::Sequence(v) => v@.len(),
    }
}

/// The number of elements of a borrowed dynamic value: a sequence's length, else 0.
pub open spec fn dynamic_ref_len(d: DynamicRef) -> nat {
    match d {
        DynamicRef::Sequence(v) => v.spec_len(),
        _ => 0,
    }
}

/// `'<type>' is not callable`.
pub open spec fn not_callable_message(t: Type) -> Seq<char> {
    seq!['\''] + crate::types::type_text(t) + "' is not callable"@
}

/// The message of a failed call of something that cannot be called.
pub fn not_callable_string(t: &Type) -> (r: String)
    ensures
        r@ == not_callable_message(*t),
{
    let id = t.id();
    proof {
        reveal_strlit("'");
    }
    assert("'"@ =~= seq!['\'']);
    crate::text::concat3("'", id.as_str(), "' is not callable")
}

impl Clone for Dynamic {
    fn clone(&self) -> (r: Self)
        ensures
            r == *self,
    {
        match self {
            Dynamic::Sequence(v) => Dynamic::Sequence(v.clone()),
        }
    }
}

impl Dynamic {
    /// A dynamic sequence holding the elements of `value`, reporting its type.
    pub fn from_sequence<T: Sequence>(value: &T) -> (r: Self)
        ensures
            r matches Dynamic::Sequence(s) && s.seq_type() == value.spec_type() && s@.len() == value.spec_len()
                && forall|i: int| 0 <= i < s@.len() ==> value.index_ensures(i, #[trigger] s@[i]),
    {
        let n = value.len();
        let mut data: Vec<Value> = Vec::new();
        let mut i: usize = 0;
        while i < n
            invariant
                n == value.spec_len(),
                i <= n,
                data@.len() == i,
                forall|j: int| 0 <= j < i ==> value.index_ensures(j, #[trigger] data@[j]),
            decreases n - i,
        {
            let v = value.index(i);
            data.push(v);
            i = i + 1;
        }
        Dynamic::Sequence(OwnedSequence::with_type(value.to_type(), data))
    }

    /// The value borrowed.
    pub fn as_ref(&self) -> (r: DynamicRef<'_>)
        ensures
            r is Sequence && r->Sequence_0 == sequence_ref(&self->Sequence_0),
    {
        match self {
            Dynamic::Sequence(v) => DynamicRef::Sequence(v),
        }
    }

    /// The type the value reports.
    pub fn to_type(&self) -> (r: Type)
        ensures
            r == dynamic_type(*self),
    {
        match self {
            Dynamic::Sequence(v) => v.to_type(),
        }
    }

    /// A sequence cannot be called: the error names its type.
    pub fn call(&self, args: &[Value]) -> (r: Result<Value, String>)
        ensures
            r matches Err(m) && m@ == not_callable_message(dynamic_type(*self)),
    {
        Err(not_callable_string(&self.to_type()))
    }

    /// The number of elements.
    pub fn len(&self) -> (r: usize)
        ensures
            r as nat == dynamic_len(*self),
    {
        match self {
            Dynamic::Sequence(v) => v.len(),
        }
    }

    /// Whether `len` is 0.
    pub fn is_empty(&self) -> (r: bool)
        ensures
            r == (dynamic_len(*self) == 0),
    {
        self.len() == 0
    }

    /// Whether the value has fields: an owned dynamic value never has (objects are
    /// only borrowed).
    pub fn is_object(&self) -> (r: bool)
        ensures
            !r,
    {
        false
    }

    /// Whether the value has elements.
    pub fn is_sequence(&self) -> (r: bool)
        ensures
            r == (*self is Sequence),
    {
        matches!(self, Dynamic::Sequence(_))
    }

    /// Whether the value can be called: an owned dynamic value never can (callables are
    /// only borrowed).
    pub fn is_callable(&self) -> (r: bool)
        ensures
            !r,
    {
        false
    }

    /// The object, if the value has fields: never for an owned dynamic value.
    pub fn as_object(&self) -> (r: Option<&dyn Object>)
        ensures
            r is None,
    {
        None
    }

    /// The callable, if the value can be called: never for an owned dynamic value.
    pub fn as_callable(&self) -> (r: Option<&dyn Callable>)
        ensures
            r is None,
    {
        None
    }

    /// The sequence, if the value has elements.
    pub fn as_sequence(&self) -> (r: Option<&OwnedSequence>)
        ensures
            match *self {
                Dynamic::Sequence(v) => r == Some(&v),
            },
    {
        match self {
            Dynamic::Sequence(v) => Some(v),
        }
    }
}

/// What the object of a borrowed object may give for its field `name`.
pub open spec fn object_field(d: DynamicRef, name: Seq<char>, x: Value) -> bool {
    if d is Object {
        d->Object_0.field_ensures(name, x)
    } else {
        d->object.field_ensures(name, x)
    }
}

/// What the object of a borrowed object may give as its entries.
pub open spec fn object_entries(d: DynamicRef, r: Option<ValueMap>) -> bool {
    if d is Object {
        d->Object_0.entries_ensures(r)
    } else {
        d->object.entries_ensures(r)
    }
}

/// The entries of an empty map after storing, field by field in order, a value that
/// the object gives for the field under the field's name.
pub open spec fn fields_stored(d: DynamicRef, m: Seq<(Value, Value)>, fs: Seq<Field>) -> bool
    decreases fs.len(),
{
    if fs.len() == 0 {
        m.len() == 0
    } else {
        exists|before: Seq<(Value, Value)>, k: Value, x: Value|
            #![trigger map_insert(before, k, x)]
            {
                &&& fields_stored(d, before, fs.subrange(0, fs.len() - 1))
                &&& k is Str
                &&& k->Str_0@ == field_name_text(fs[fs.len() - 1].name)
                &&& object_field(d, k->Str_0@, x)
                &&& m == map_insert(before, k, x)
            }
    }
}

/// The type that the object of a borrowed object reports.
pub open spec fn object_type(d: DynamicRef) -> Type {
    if d is Object {
        d->Object_0.spec_type()
    } else {
        d->object.spec_type()
    }
}

/// The entries of a map of an object's fields: one per field of its struct type, none
/// when its type is not a struct.
pub open spec fn struct_fields_stored(d: DynamicRef, m: Seq<(Value, Value)>) -> bool {
    match object_type(d) {
        Type::Struct(st) => fields_stored(d, m, st.fields@),
        _ => m.len() == 0,
    }
}

/// What `materialize` gives for a borrowed dynamic value: `undefined` for a callable;
/// for an object, a map: its entries when it has them, else a map of any type holding
/// its fields' values under their names; for a sequence, an owned sequence of its
/// elements typed as a slice of `any`.
pub open spec fn materialized(d: DynamicRef, r: Value) -> bool {
    &&& d is Callable ==> r is Undefined
    &&& (d is Object || d is Bound) ==> {
        &&& r is Mapping
        &&& object_entries(d, Some(r->Mapping_0)) || {
            &&& object_entries(d, None)
            &&& r->Mapping_0.map_type() == any_map_type()
            &&& struct_fields_stored(d, r->Mapping_0@)
        }
    }
    &&& d is Sequence ==> {
        &&& r is Dynamic
        &&& r->Dynamic_0 is Sequence
        &&& r->Dynamic_0->Sequence_0.seq_type() == slice_of(Type::Any)
        &&& r->Dynamic_0->Sequence_0@.len() == d->Sequence_0.spec_len()
        &&& forall|i: int|
            0 <= i < d->Sequence_0.spec_len() ==> d->Sequence_0.index_ensures(i, #[trigger] r->Dynamic_0->Sequence_0@[i])
    }
}

/// `value` borrowed as an object.
pub open spec fn object_ref<'a, T: Object>(value: &'a T) -> &'a dyn Object {
    value
}

/// `value` borrowed as a sequence.
pub open spec fn sequence_ref<'a, T: Sequence>(value: &'a T) -> &'a dyn Sequence {
    value
}

/// `value` borrowed as a callable.
pub open spec fn callable_ref<'a, T: Callable>(value: &'a T) -> &'a dyn Callable {
    value
}

impl<'a> DynamicRef<'a> {
    /// A borrowed object.
    pub fn from_object<T: Object>(value: &'a T) -> (r: Self)
        ensures
            r is Object && r->Object_0 == object_ref(value),
    {
        DynamicRef::Object(value)
    }

    /// A borrowed sequence.
    pub fn from_sequence<T: Sequence>(value: &'a T) -> (r: Self)
        ensures
            r is Sequence && r->Sequence_0 == sequence_ref(value),
    {
        DynamicRef::Sequence(value)
    }

    /// A borrowed callable.
    pub fn from_callable<T: Callable>(value: &'a T) -> (r: Self)
        ensures
            r is Callable && r->Callable_0 == callable_ref(value),
    {
        DynamicRef::Callable(value)
    }

    /// A borrowed object that can also be called.
    pub fn from_bound<T: Object + Callable>(value: &'a T) -> (r: Self)
        ensures
            r is Bound && r->object == object_ref(value) && r->callable == callable_ref(value),
    {
        DynamicRef::Bound { object: value, callable: value }
    }

    /// The type the value reports.
    pub fn to_type(&self) -> (r: Type)
        ensures
            r == dynamic_ref_type(*self),
    {
        match self {
            DynamicRef::Object(v) => v.to_type(),
            DynamicRef::Sequence(v) => v.to_type(),
            DynamicRef::Callable(v) => v.to_type(),
            DynamicRef::Bound { object, .. } => object.to_type(),
        }
    }

    /// Invokes a callable (a bound value through its callable) with `args` as they are;
    /// anything else is an error naming its type.
    pub fn call(&self, args: &[Value]) -> (r: Result<Value, String>)
        ensures
            *self is Callable ==> self->Callable_0.call_ensures(args@, r),
            *self is Bound ==> self->callable.call_ensures(args@, r),
            !(*self is Callable || *self is Bound) ==> (r matches Err(m) && m@ == not_callable_message(
                dynamic_ref_type(*self),
            )),
    {
        match self.as_callable() {
            Some(c) => c.call(args),
            None => Err(not_callable_string(&self.to_type())),
        }
    }

    /// The number of elements of a sequence; 0 for anything else.
    pub fn len(&self) -> (r: usize)
        ensures
            r as nat == dynamic_ref_len(*self),
    {
        match self {
            DynamicRef::Sequence(v) => v.len(),
            _ => 0,
        }
    }

    /// Whether `len` is 0.
    pub fn is_empty(&self) -> (r: bool)
        ensures
            r == (dynamic_ref_len(*self) == 0),
    {
        self.len() == 0
    }

    /// Whether the value has fields.
    pub fn is_object(&self) -> (r: bool)
        ensures
            r == (*self is Object || *self is Bound),
    {
        matches!(self, DynamicRef::Object(_) | DynamicRef::Bound { .. })
    }

    /// Whether the value has elements.
    pub fn is_sequence(&self) -> (r: bool)
        ensures
            r == (*self is Sequence),
    {
        matches!(self, DynamicRef::Sequence(_))
    }

    /// Whether the value can be called.
    pub fn is_callable(&self) -> (r: bool)
        ensures
            r == (*self is Callable || *self is Bound),
    {
        matches!(self, DynamicRef::Callable(_) | DynamicRef::Bound { .. })
    }

    /// The object, if the value has fields.
    pub fn as_object(&self) -> (r: Option<&'a dyn Object>)
        ensures
            *self is Object ==> r == Some(self->Object_0),
            *self is Bound ==> r == Some(self->object),
            !(*self is Object || *self is Bound) ==> r is None,
    {
        match *self {
            DynamicRef::Object(v) => Some(v),
            DynamicRef::Bound { object, .. } => Some(object),
            _ => None,
        }
    }

    /// The sequence, if the value has elements.
    pub fn as_sequence(&self) -> (r: Option<&'a dyn Sequence>)
        ensures
            *self is Sequence ==> r == Some(self->Sequence_0),
            !(*self is Sequence) ==> r is None,
    {
        match *self {
            DynamicRef::Sequence(v) => Some(v),
            _ => None,
        }
    }

    /// The callable, if the value can be called.
    pub fn as_callable(&self) -> (r: Option<&'a dyn Callable>)
        ensures
            *self is Callable ==> r == Some(self->Callable_0),
            *self is Bound ==> r == Some(self->callable),
            !(*self is Callable || *self is Bound) ==> r is None,
    {
        match *self {
            DynamicRef::Callable(v) => Some(v),
            DynamicRef::Bound { callable, .. } => Some(callable),
            _ => None,
        }
    }

    /// An owned value with the content of the borrowed one.
    pub fn materialize(&self) -> (r: Value)
        ensures
            materialized(*self, r),
    {
        match self.as_object() {
            Some(o) => {
                let entries = o.entries();
                return match entries {
                    Some(m) => Value::Mapping(m),
                    None => {
                        let ty = MapType::new(Type::Any, Type::Any, Type::Any);
                        let mut map = ValueMap::new(&ty);
                        let t = o.to_type();
                        match t.as_struct() {
                            Some(st) => {
                                let fields = st.fields();
                                let mut i: usize = 0;
                                assert(fields@.subrange(0, 0) =~= Seq::<Field>::empty());
                                while i < fields.len()
                                    invariant
                                        i <= fields@.len(),
                                        *self is Object ==> o == self->Object_0,
                                        *self is Bound ==> o == self->object,
                                        *self is Object || *self is Bound,
                                        map.map_type() == any_map_type(),
                                        fields_stored(*self, map@, fields@.subrange(0, i as int)),
                                    decreases fields@.len() - i,
                                {
                                    let ghost s1 = fields@.subrange(0, i + 1);
                                    assert(s1.subrange(0, s1.len() - 1) =~= fields@.subrange(0, i as int));
                                    let name = fields[i].name().to_string();
                                    let value = o.field(name.as_str());
                                    map.insert(Value::Str(Str(name)), value);
                                    i = i + 1;
                                }
                                assert(fields@.subrange(0, fields@.len() as int) =~= fields@);
                            },
                            None => {},
                        }
                        Value::Mapping(map)
                    },
                };
            },
            None => {},
        }
        match self.as_sequence() {
            Some(v) => {
                let n = v.len();
                let mut data: Vec<Value> = Vec::new();
                let mut i: usize = 0;
                while i < n
                    invariant
                        n == v.spec_len(),
                        i <= n,
                        data@.len() == i,
                        forall|j: int| 0 <= j < i ==> v.index_ensures(j, #[trigger] data@[j]),
                    decreases n - i,
                {
                    let e = v.index(i);
                    data.push(e);
                    i = i + 1;
                }
                let ty = Type::Slice(SliceType { ty: Arc::new(Type::Any), capacity: None });
                Value::Dynamic(Dynamic::Sequence(OwnedSequence::with_type(ty, data)))
            },
            None => Value::Undefined,
        }
    }
}

/// The elements of a dynamic sequence are structurally smaller than the value holding it.
pub proof fn lemma_elements_decrease(v: Value, i: int)
    requires
        v is Dynamic,
        0 <= i < v->Dynamic_0->Sequence_0@.len(),
    ensures
        decreases_to!(v => v->Dynamic_0->Sequence_0@[i]),
{
    let d = v->Dynamic_0;
    let q = d->Sequence_0;
    assert(decreases_to!(v => v->Dynamic_0));
    assert(decreases_to!(d => d->Sequence_0));
    assert(decreases_to!(q => q.data));
    assert(decreases_to!(*q.data => (*q.data)@));
    assert(decreases_to!((*q.data)@ => (*q.data)@[i]));
}

/// The element sequence of a dynamic sequence is structurally smaller than the value
/// holding it.
pub proof fn lemma_sequence_view_decreases(v: Value)
    requires
        v is Dynamic,
    ensures
        decreases_to!(v => v->Dynamic_0->Sequence_0@),
{
    let d = v->Dynamic_0;
    let q = d->Sequence_0;
    assert(decreases_to!(v => v->Dynamic_0));
    assert(decreases_to!(d => d->Sequence_0));
    assert(decreases_to!(q => q.data));
    assert(decreases_to!(*q.data => (*q.data)@));
}

} // verus!
