//! Reflected types.

use std::sync::Arc;
use vstd::prelude::*;
use crate::text::{text_eq};
use crate::field::Field;
use crate::item::Item;
use crate::meta_data::MetaData;

verus! {

/// The identifier of a type: its canonical name.
#[derive(Debug)]
pub struct TypeId(String);

impl View for TypeId {
    type V = Seq<char>;

    closed spec fn view(&self) -> Seq<char> {
        self.0@
    }
}

impl Clone for TypeId {
    fn clone(&self) -> (r: Self)
        ensures
            r == *self,
    {
        TypeId(self.0.clone())
    }
}

impl TypeId {
    pub(crate) fn from_str(value: &str) -> (r: Self)
        ensures
            r@ == value@,
    {
        TypeId(value.to_owned())
    }

    pub(crate) fn from_string(value: String) -> (r: Self)
        ensures
            r@ == value@,
    {
        TypeId(value)
    }

    /// The identifier as text.
    pub fn as_str(&self) -> (r: &str)
        ensures
            r@ == self@,
    {
        self.0.as_str()
    }
}

impl PartialEq for TypeId {
    fn eq(&self, other: &Self) -> (r: bool) {
        text_eq(self.0.as_str(), other.0.as_str())
    }
}

impl vstd::std_specs::cmp::PartialEqSpecImpl for TypeId {
    open spec fn obeys_eq_spec() -> bool {
        true
    }

    open spec fn eq_spec(&self, other: &TypeId) -> bool {
        self@ == other@
    }
}

/// A module path, such as `core::result`.
#[derive(Debug)]
pub struct Path(pub String);

impl Clone for Path {
    fn clone(&self) -> (r: Self)
        ensures
            r == *self,
    {
        Path(self.0.clone())
    }
}

impl View for Path {
    type V = Seq<char>;

    open spec fn view(&self) -> Seq<char> {
        self.0@
    }
}

impl Path {
    /// The path spelled by `value`.
    pub fn from(value: &str) -> (r: Self)
        ensures
            r@ == value@,
    {
        Path(value.to_owned())
    }
}

/// How far public an item is.
#[derive(Debug, Clone, Copy, PartialEq, Eq, Structural)]
pub enum Public {
    Full,
    Crate,
    Super,
}

/// The visibility of an item or field.
#[derive(Debug, Clone, Copy, PartialEq, Eq, Structural)]
pub enum Visibility {
    Private,
    Public(Public),
}

impl Visibility {
    /// Whether the visibility is private.
    pub fn is_private(&self) -> (r: bool)
        ensures
            r == (*self is Private),
    {
        matches!(self, Visibility::Private)
    }
}

/// The `bool` type.
#[derive(Debug, Clone, Copy, PartialEq, Eq, Structural)]
pub struct BoolType;

/// The `str` type.
#[derive(Debug, Clone, Copy, PartialEq, Eq, Structural)]
pub struct StrType;

/// The `Self` type.
#[derive(Debug, Clone, Copy, PartialEq, Eq, Structural)]
pub struct ThisType;

/// The integer types.
#[derive(Debug, Clone, Copy, PartialEq, Eq, Structural)]
pub enum IntType {
    I8,
    I16,
    I32,
    I64,
    U8,
    U16,
    U32,
    U64,
}

/// The floating-point types.
#[derive(Debug, Clone, Copy, PartialEq, Eq, Structural)]
pub enum FloatType {
    F32,
    F64,
}

/// The number types.
#[derive(Debug, Clone, Copy, PartialEq, Eq, Structural)]
pub enum NumberType {
    Int(IntType),
    Float(FloatType),
}

impl IntType {
    /// Whether values of the type can be negative.
    pub fn is_signed(&self) -> (r: bool)
        ensures
            r == (*self is I8 || *self is I16 || *self is I32 || *self is I64),
    {
        matches!(self, IntType::I8 | IntType::I16 | IntType::I32 | IntType::I64)
    }
}

pub open spec fn int_type_name(t: IntType) -> Seq<char> {
    match t {
        IntType::I8 => seq!['i', '8'],
        IntType::I16 => seq!['i', '1', '6'],
        IntType::I32 => seq!['i', '3', '2'],
        IntType::I64 => seq!['i', '6', '4'],
        IntType::U8 => seq!['u', '8'],
        IntType::U16 => seq!['u', '1', '6'],
        IntType::U32 => seq!['u', '3', '2'],
        IntType::U64 => seq!['u', '6', '4'],
    }
}

pub open spec fn number_type_name(t: NumberType) -> Seq<char> {
    match t {
        NumberType::Int(i) => int_type_name(i),
        NumberType::Float(FloatType::F32) => seq!['f', '3', '2'],
        NumberType::Float(FloatType::F64) => seq!['f', '6', '4'],
    }
}

impl NumberType {
    /// Whether this is an integer type.
    pub fn is_int(&self) -> (r: bool)
        ensures
            r == (*self is Int),
    {
        matches!(self, NumberType::Int(_))
    }

    /// Whether this is a floating-point type.
    pub fn is_float(&self) -> (r: bool)
        ensures
            r == (*self is Float),
    {
        matches!(self, NumberType::Float(_))
    }

    /// Whether values of the type can be negative (every float type can).
    pub fn is_signed(&self) -> (r: bool)
        ensures
            r == match *self {
                NumberType::Int(i) => i is I8 || i is I16 || i is I32 || i is I64,
                NumberType::Float(_) => true,
            },
    {
        match self {
            NumberType::Int(i) => i.is_signed(),
            NumberType::Float(_) => true,
        }
    }

    /// The integer type, if this is one.
    pub fn as_int(&self) -> (r: Option<&IntType>)
        ensures
            r == match *self {
                NumberType::Int(i) => Some(&i),
                _ => None,
            },
    {
        match self {
            NumberType::Int(i) => Some(i),
            _ => None,
        }
    }

    /// The float type, if this is one.
    pub fn as_float(&self) -> (r: Option<&FloatType>)
        ensures
            r == match *self {
                NumberType::Float(f) => Some(&f),
                _ => None,
            },
    {
        match self {
            NumberType::Float(f) => Some(f),
            _ => None,
        }
    }

    /// The name of the type, such as `i32` or `f64`.
    pub fn name(&self) -> (r: &'static str)
        ensures
            r@ == number_type_name(*self),
    {
        match self {
            NumberType::Int(IntType::I8) => { proof { reveal_strlit("i8"); } "i8" },
            NumberType::Int(IntType::I16) => { proof { reveal_strlit("i16"); } "i16" },
            NumberType::Int(IntType::I32) => { proof { reveal_strlit("i32"); } "i32" },
            NumberType::Int(IntType::I64) => { proof { reveal_strlit("i64"); } "i64" },
            NumberType::Int(IntType::U8) => { proof { reveal_strlit("u8"); } "u8" },
            NumberType::Int(IntType::U16) => { proof { reveal_strlit("u16"); } "u16" },
            NumberType::Int(IntType::U32) => { proof { reveal_strlit("u32"); } "u32" },
            NumberType::Int(IntType::U64) => { proof { reveal_strlit("u64"); } "u64" },
            NumberType::Float(FloatType::F32) => { proof { reveal_strlit("f32"); } "f32" },
            NumberType::Float(FloatType::F64) => { proof { reveal_strlit("f64"); } "f64" },
        }
    }
}

/// A reference type `&T`.
pub struct RefType {
    pub ty: Arc<Type>,
}

/// The mutable marker `mut T` (a `&mut T` is a reference to it).
pub struct MutType {
    pub ty: Arc<Type>,
}

/// A slice or array type `[T]` / `[T; N]`.
pub struct SliceType {
    pub ty: Arc<Type>,
    pub capacity: Option<usize>,
}

/// A map type with key and value types.
pub struct MapType {
    pub ty: Arc<Type>,
    pub key: Arc<Type>,
    pub value: Arc<Type>,
    pub path: Option<Path>,
    pub meta: Option<MetaData>,
}

/// A struct type with its fields.
pub struct StructType {
    pub path: Path,
    pub name: String,
    pub vis: Visibility,
    pub meta: MetaData,
    pub fields: Arc<Vec<Field>>,
}

/// An enum type with its variants.
pub struct EnumType {
    pub path: Path,
    pub name: String,
    pub vis: Visibility,
    pub meta: MetaData,
    pub variants: Arc<Vec<Field>>,
}

/// A trait type with its methods.
pub struct TraitType {
    pub path: Path,
    pub name: String,
    pub vis: Visibility,
    pub meta: MetaData,
    pub methods: Arc<Vec<Field>>,
}

/// A module with its items.
pub struct ModType {
    pub path: Path,
    pub name: String,
    pub vis: Visibility,
    pub meta: MetaData,
    pub items: Arc<Vec<Item>>,
}

/// A tuple type.
pub struct TupleType {
    pub items: Arc<Vec<Type>>,
}

/// A reflected type.
pub enum Type {
    Any,
    Bool(BoolType),
    Enum(Arc<EnumType>),
    Number(NumberType),
    Str(StrType),
    Ref(RefType),
    Slice(SliceType),
    Mapping(Arc<MapType>),
    Struct(Arc<StructType>),
    This(ThisType),
    Tuple(Arc<TupleType>),
    Trait(Arc<TraitType>),
    Mut(MutType),
    Mod(Arc<ModType>),
    Void,
}


impl Clone for RefType {
    fn clone(&self) -> (r: Self)
        ensures
            r == *self,
    {
        RefType { ty: self.ty.clone() }
    }
}

impl Clone for MutType {
    fn clone(&self) -> (r: Self)
        ensures
            r == *self,
    {
        MutType { ty: self.ty.clone() }
    }
}

impl Clone for SliceType {
    fn clone(&self) -> (r: Self)
        ensures
            r == *self,
    {
        SliceType { ty: self.ty.clone(), capacity: self.capacity }
    }
}

impl Clone for MapType {
    fn clone(&self) -> (r: Self)
        ensures
            r == *self,
    {
        let path = match &self.path {
            Some(p) => Some(p.clone()),
            None => None,
        };
        let meta = match &self.meta {
            Some(m) => Some(m.clone()),
            None => None,
        };
        MapType { ty: self.ty.clone(), key: self.key.clone(), value: self.value.clone(), path, meta }
    }
}

impl Clone for StructType {
    fn clone(&self) -> (r: Self)
        ensures
            r == *self,
    {
        StructType {
            path: self.path.clone(),
            name: self.name.clone(),
            vis: self.vis,
            meta: self.meta.clone(),
            fields: self.fields.clone(),
        }
    }
}

impl Clone for EnumType {
    fn clone(&self) -> (r: Self)
        ensures
            r == *self,
    {
        EnumType {
            path: self.path.clone(),
            name: self.name.clone(),
            vis: self.vis,
            meta: self.meta.clone(),
            variants: self.variants.clone(),
        }
    }
}

impl Clone for TraitType {
    fn clone(&self) -> (r: Self)
        ensures
            r == *self,
    {
        TraitType {
            path: self.path.clone(),
            name: self.name.clone(),
            vis: self.vis,
            meta: self.meta.clone(),
            methods: self.methods.clone(),
        }
    }
}

impl Clone for ModType {
    fn clone(&self) -> (r: Self)
        ensures
            r == *self,
    {
        ModType {
            path: self.path.clone(),
            name: self.name.clone(),
            vis: self.vis,
            meta: self.meta.clone(),
            items: self.items.clone(),
        }
    }
}

impl Clone for TupleType {
    fn clone(&self) -> (r: Self)
        ensures
            r == *self,
    {
        TupleType { items: self.items.clone() }
    }
}

impl Clone for Type {
    fn clone(&self) -> (r: Self)
        ensures
            r == *self,
    {
        match self {
            Type::Any => Type::Any,
            Type::Bool(v) => Type::Bool(*v),
            Type::Enum(v) => Type::Enum(v.clone()),
            Type::Number(v) => Type::Number(*v),
            Type::Str(v) => Type::Str(*v),
            Type::Ref(v) => Type::Ref(v.clone()),
            Type::Slice(v) => Type::Slice(v.clone()),
            Type::Mapping(v) => Type::Mapping(v.clone()),
            Type::Struct(v) => Type::Struct(v.clone()),
            Type::This(v) => Type::This(*v),
            Type::Tuple(v) => Type::Tuple(v.clone()),
            Type::Trait(v) => Type::Trait(v.clone()),
            Type::Mut(v) => Type::Mut(v.clone()),
            Type::Mod(v) => Type::Mod(v.clone()),
            Type::Void => Type::Void,
        }
    }
}

/// `path::name`, the identifier of a named type.
pub open spec fn nominal_text(path: Seq<char>, name: Seq<char>) -> Seq<char> {
    path + seq![':', ':'] + name
}

/// The canonical names of the types, joined by `, `.
pub open spec fn items_text(items: Seq<Type>) -> Seq<char>
    decreases items, 0nat,
{
    if items.len() == 0 {
        seq![]
    } else if items.len() == 1 {
        type_text(items[0])
    } else {
        items_text(items.subrange(0, items.len() - 1)) + seq![',', ' '] + type_text(items[items.len() - 1])
    }
}

/// The canonical name of a type, which its `TypeId` holds.
pub open spec fn type_text(t: Type) -> Seq<char>
    decreases t, 1nat,
{
    match t {
        Type::Any => seq!['a', 'n', 'y'],
        Type::Void => seq!['v', 'o', 'i', 'd'],
        Type::Bool(_) => seq!['b', 'o', 'o', 'l'],
        Type::Str(_) => seq!['s', 't', 'r'],
        Type::This(_) => seq!['S', 'e', 'l', 'f'],
        Type::Number(n) => number_type_name(n),
        Type::Ref(r) => seq!['&'] + type_text(*r.ty),
        Type::Mut(m) => seq!['m', 'u', 't', ' '] + type_text(*m.ty),
        Type::Slice(s) => seq!['['] + type_text(*s.ty) + seq![']'],
        Type::Mapping(m) => seq!['m', 'a', 'p', '<'] + type_text(*m.key) + seq![',', ' '] + type_text(*m.value) + seq!['>'],
        Type::Tuple(tt) => seq!['('] + items_text(tt.items@) + seq![')'],
        Type::Struct(st) => nominal_text(st.path@, st.name@),
        Type::Enum(et) => nominal_text(et.path@, et.name@),
        Type::Trait(tr) => nominal_text(tr.path@, tr.name@),
        Type::Mod(md) => nominal_text(md.path@, md.name@),
    }
}


/// Two types are the same when their canonical names agree.
pub open spec fn same_type(a: Type, b: Type) -> bool {
    type_text(a) == type_text(b)
}

fn nominal_string(path: &Path, name: &String) -> (r: String)
    ensures
        r@ == nominal_text(path@, name@),
{
    let mut s = path.0.clone();
    proof { reveal_strlit("::"); }
    assert("::"@ =~= seq![':', ':']);
    s.append("::");
    s.append(name.as_str());
    s
}

fn type_string(t: &Type) -> (r: String)
    ensures
        r@ == type_text(*t),
    decreases t,
{
    match t {
        Type::Any => {
            proof { reveal_strlit("any"); }
            assert("any"@ =~= seq!['a', 'n', 'y']);
            "any".to_owned()
        },
        Type::Void => {
            proof { reveal_strlit("void"); }
            assert("void"@ =~= seq!['v', 'o', 'i', 'd']);
            "void".to_owned()
        },
        Type::Bool(_) => {
            proof { reveal_strlit("bool"); }
            assert("bool"@ =~= seq!['b', 'o', 'o', 'l']);
            "bool".to_owned()
        },
        Type::Str(_) => {
            proof { reveal_strlit("str"); }
            assert("str"@ =~= seq!['s', 't', 'r']);
            "str".to_owned()
        },
        Type::This(_) => {
            proof { reveal_strlit("Self"); }
            assert("Self"@ =~= seq!['S', 'e', 'l', 'f']);
            "Self".to_owned()
        },
        Type::Number(n) => n.name().to_owned(),
        Type::Ref(r) => {
            let inner = type_string(&r.ty);
            proof { reveal_strlit("&"); }
            assert("&"@ =~= seq!['&']);
            let mut s = "&".to_owned();
            s.append(inner.as_str());
            s
        },
        Type::Mut(m) => {
            let inner = type_string(&m.ty);
            proof { reveal_strlit("mut "); }
            assert("mut "@ =~= seq!['m', 'u', 't', ' ']);
            let mut s = "mut ".to_owned();
            s.append(inner.as_str());
            s
        },
        Type::Slice(sl) => {
            let inner = type_string(&sl.ty);
            proof { reveal_strlit("["); reveal_strlit("]"); }
            assert("["@ =~= seq!['[']);
            assert("]"@ =~= seq![']']);
            let mut s = "[".to_owned();
            s.append(inner.as_str());
            s.append("]");
            s
        },
        Type::Mapping(m) => {
            let k = type_string(&m.key);
            let v = type_string(&m.value);
            proof { reveal_strlit("map<"); reveal_strlit(", "); reveal_strlit(">"); }
            assert("map<"@ =~= seq!['m', 'a', 'p', '<']);
            assert(", "@ =~= seq![',', ' ']);
            assert(">"@ =~= seq!['>']);
            let mut s = "map<".to_owned();
            s.append(k.as_str());
            s.append(", ");
            s.append(v.as_str());
            s.append(">");
            s
        },
        Type::Tuple(tt) => {
            let ghost items = tt.items@;
            assert(decreases_to!(*t => **tt));
            let mut s = String::new();
            proof { reveal_strlit("("); reveal_strlit(", "); reveal_strlit(")"); }
            assert("("@ =~= seq!['(']);
            assert(")"@ =~= seq![')']);
            s.append("(");
            let n = tt.items.len();
            let mut i: usize = 0;
            assert(items.subrange(0, 0) =~= Seq::<Type>::empty());
            while i < n
                invariant
                    n == items.len(),
                    items == tt.items@,
                    i <= n,
                    *t == Type::Tuple(*tt),
                    decreases_to!(*t => **tt),
                    s@ == seq!['('] + items_text(items.subrange(0, i as int)),
                    ", "@ == seq![',', ' '],
                decreases n - i,
            {
                let text = type_string(&tt.items[i]);
                let ghost before = s@;
                if i > 0 {
                    s.append(", ");
                    assert(s@ == before + seq![',', ' ']);
                } else {
                    assert(s@ == before);
                }
                let ghost middle = s@;
                s.append(text.as_str());
                assert(s@ == middle + text@);
                proof {
                    let next = items.subrange(0, i + 1);
                    assert(next.subrange(0, next.len() - 1) =~= items.subrange(0, i as int));
                    assert(next[next.len() - 1] == items[i as int]);
                    if i == 0 {
                        assert(items_text(next) == type_text(items[0]));
                    }
                    assert(s@ =~= seq!['('] + items_text(next));
                }
                i = i + 1;
            }
            proof { assert(items.subrange(0, n as int) =~= items); }
            s.append(")");
            s
        },
        Type::Struct(st) => nominal_string(&st.path, &st.name),
        Type::Enum(et) => nominal_string(&et.path, &et.name),
        Type::Trait(tr) => nominal_string(&tr.path, &tr.name),
        Type::Mod(md) => nominal_string(&md.path, &md.name),
    }
}

/// Whether two types are the same.
pub fn types_equal(a: &Type, b: &Type) -> (r: bool)
    ensures
        r == same_type(*a, *b),
{
    let x = type_string(a);
    let y = type_string(b);
    text_eq(x.as_str(), y.as_str())
}


/// The number of members of a type: variants, fields, methods, items or slots.
pub open spec fn type_len(t: Type) -> nat {
    match t {
        Type::Enum(v) => v.variants@.len(),
        Type::Slice(v) => match v.capacity {
            Some(c) => c as nat,
            None => 0,
        },
        Type::Struct(v) => v.fields@.len(),
        Type::Tuple(v) => v.items@.len(),
        Type::Trait(v) => v.methods@.len(),
        Type::Mod(v) => v.items@.len(),
        _ => 0,
    }
}

/// Whether values of the kind are plain scalars (bool, number, str).
pub open spec fn is_scalar(t: Type) -> bool {
    t is Bool || t is Number || t is Str
}

/// A type can be assigned to `target` when the target is `any` or the same type.
/// Neither `any` nor `void` is assignable anywhere.
pub open spec fn assignable(t: Type, target: Type) -> bool {
    !(t is Any) && !(t is Void) && (target is Any || same_type(t, target))
}

/// A value of type `t` can be converted to `target` when it is assignable to it,
/// when both are numbers, or when a scalar is turned into a string.
pub open spec fn convertable(t: Type, target: Type) -> bool {
    assignable(t, target) || (t is Number && target is Number) || (is_scalar(t) && target is Str)
}

impl RefType {
    /// The referenced type.
    pub fn ty(&self) -> (r: &Type)
        ensures
            *r == *self.ty,
    {
        &self.ty
    }

    /// Whether this is a reference to `ty`.
    pub fn is_ref_of(&self, ty: Type) -> (r: bool)
        ensures
            r == same_type(*self.ty, ty),
    {
        types_equal(&self.ty, &ty)
    }
}

impl MutType {
    /// The type behind the marker.
    pub fn ty(&self) -> (r: &Type)
        ensures
            *r == *self.ty,
    {
        &self.ty
    }

    /// Whether this marks `ty` as mutable.
    pub fn is_mut_of(&self, ty: Type) -> (r: bool)
        ensures
            r == same_type(*self.ty, ty),
    {
        types_equal(&self.ty, &ty)
    }
}

impl SliceType {
    /// The element type.
    pub fn ty(&self) -> (r: &Type)
        ensures
            *r == *self.ty,
    {
        &self.ty
    }

    /// Whether this is a slice of `ty`.
    pub fn is_slice_of(&self, ty: Type) -> (r: bool)
        ensures
            r == same_type(*self.ty, ty),
    {
        types_equal(&self.ty, &ty)
    }

    /// The fixed length, or 0 for a slice of unknown length.
    pub fn len(&self) -> (r: usize)
        ensures
            r == match self.capacity {
                Some(c) => c,
                None => 0,
            },
    {
        match self.capacity {
            Some(c) => c,
            None => 0,
        }
    }
}

/// The type of a map with keys and values of any type, itself reflected as `any`.
pub open spec fn any_map_type() -> MapType {
    MapType { ty: Arc::new(Type::Any), key: Arc::new(Type::Any), value: Arc::new(Type::Any), path: None, meta: None }
}

impl MapType {
    /// A map type over `key` and `value`, itself reflected as `ty`.
    pub fn new(ty: Type, key: Type, value: Type) -> (r: Self)
        ensures
            *r.ty == ty,
            *r.key == key,
            *r.value == value,
            r.path is None,
            r.meta is None,
    {
        MapType { ty: Arc::new(ty), key: Arc::new(key), value: Arc::new(value), path: None, meta: None }
    }

    /// The path of a named map type.
    pub fn path(&self) -> (r: Option<&Path>)
        ensures
            r == match self.path {
                Some(p) => Some(&p),
                None => None,
            },
    {
        match &self.path {
            Some(p) => Some(p),
            None => None,
        }
    }

    /// The metadata of a named map type.
    pub fn meta(&self) -> (r: Option<&MetaData>)
        ensures
            r == match self.meta {
                Some(m) => Some(&m),
                None => None,
            },
    {
        match &self.meta {
            Some(m) => Some(m),
            None => None,
        }
    }
}

impl StructType {
    /// A struct type.
    pub fn new(path: Path, name: String, vis: Visibility, meta: MetaData, fields: Vec<Field>) -> (r: Self)
        ensures
            r.path == path,
            r.name == name,
            r.vis == vis,
            r.meta == meta,
            r.fields@ == fields@,
    {
        StructType { path, name, vis, meta, fields: Arc::new(fields) }
    }

    /// The fields, in declaration order.
    pub fn fields(&self) -> (r: &Vec<Field>)
        ensures
            r@ == self.fields@,
    {
        &self.fields
    }

    /// The number of fields.
    pub fn len(&self) -> (r: usize)
        ensures
            r == self.fields@.len(),
    {
        self.fields.len()
    }
}

impl TupleType {
    /// A tuple of `items`.
    pub fn new(items: Vec<Type>) -> (r: Self)
        ensures
            r.items@ == items@,
    {
        TupleType { items: Arc::new(items) }
    }
}

impl Type {
    /// The canonical identifier of the type.
    pub fn id(&self) -> (r: TypeId)
        ensures
            r@ == type_text(*self),
    {
        TypeId::from_string(type_string(self))
    }

    /// The number of members: variants, fields, methods, items or fixed slots.
    pub fn len(&self) -> (r: usize)
        ensures
            r == type_len(*self),
    {
        match self {
            Type::Enum(v) => v.variants.len(),
            Type::Slice(v) => v.len(),
            Type::Struct(v) => v.fields.len(),
            Type::Tuple(v) => v.items.len(),
            Type::Trait(v) => v.methods.len(),
            Type::Mod(v) => v.items.len(),
            _ => 0,
        }
    }

    /// Whether the type has no members.
    pub fn is_empty(&self) -> (r: bool)
        ensures
            r == (type_len(*self) == 0),
    {
        self.len() == 0
    }

    /// The path of a named type.
    pub fn path(&self) -> (r: Option<&Path>)
        ensures
            r == match *self {
                Type::Mapping(v) => match v.path {
                    Some(p) => Some(&p),
                    None => None,
                },
                Type::Struct(v) => Some(&v.path),
                Type::Enum(v) => Some(&v.path),
                Type::Trait(v) => Some(&v.path),
                Type::Mod(v) => Some(&v.path),
                _ => None,
            },
    {
        match self {
            Type::Mapping(v) => v.path(),
            Type::Struct(v) => Some(&v.path),
            Type::Enum(v) => Some(&v.path),
            Type::Trait(v) => Some(&v.path),
            Type::Mod(v) => Some(&v.path),
            _ => None,
        }
    }

    /// The metadata of a named type.
    pub fn meta(&self) -> (r: Option<&MetaData>)
        ensures
            r == match *self {
                Type::Mapping(v) => match v.meta {
                    Some(m) => Some(&m),
                    None => None,
                },
                Type::Struct(v) => Some(&v.meta),
                Type::Enum(v) => Some(&v.meta),
                Type::Trait(v) => Some(&v.meta),
                Type::Mod(v) => Some(&v.meta),
                _ => None,
            },
    {
        match self {
            Type::Mapping(v) => v.meta(),
            Type::Struct(v) => Some(&v.meta),
            Type::Enum(v) => Some(&v.meta),
            Type::Trait(v) => Some(&v.meta),
            Type::Mod(v) => Some(&v.meta),
            _ => None,
        }
    }

    /// The type as an item.
    pub fn to_item(&self) -> (r: Item)
        ensures
            r == Item::Type(*self),
    {
        Item::Type(self.clone())
    }

    /// Whether this is a reference to `ty`.
    pub fn is_ref_of(&self, ty: Self) -> (r: bool)
        ensures
            r == match *self {
                Type::Ref(v) => same_type(*v.ty, ty),
                _ => false,
            },
    {
        match self {
            Type::Ref(v) => v.is_ref_of(ty),
            _ => false,
        }
    }

    /// Whether this is `&Self`.
    pub fn is_ref_self(&self) -> (r: bool)
        ensures
            r == match *self {
                Type::Ref(v) => *v.ty is This,
                _ => false,
            },
    {
        match self {
            Type::Ref(v) => v.ty().is_self(),
            _ => false,
        }
    }

    /// Whether this is `&mut T`.
    pub fn is_ref_mut(&self) -> (r: bool)
        ensures
            r == match *self {
                Type::Ref(v) => *v.ty is Mut,
                _ => false,
            },
    {
        match self {
            Type::Ref(v) => v.ty().is_mut(),
            _ => false,
        }
    }

    /// Whether this is `&mut Self`.
    pub fn is_ref_mut_self(&self) -> (r: bool)
        ensures
            r == match *self {
                Type::Ref(v) => match *v.ty {
                    Type::Mut(m) => *m.ty is This,
                    _ => false,
                },
                _ => false,
            },
    {
        match self {
            Type::Ref(v) => v.ty().is_mut_self(),
            _ => false,
        }
    }

    /// Whether this is a slice of `ty`.
    pub fn is_slice_of(&self, ty: Self) -> (r: bool)
        ensures
            r == match *self {
                Type::Slice(v) => same_type(*v.ty, ty),
                _ => false,
            },
    {
        match self {
            Type::Slice(v) => v.is_slice_of(ty),
            _ => false,
        }
    }

    /// Whether this is an integer type.
    pub fn is_int(&self) -> (r: bool)
        ensures
            r == match *self {
                Type::Number(v) => v is Int,
                _ => false,
            },
    {
        match self {
            Type::Number(v) => v.is_int(),
            _ => false,
        }
    }

    /// Whether this is a floating-point type.
    pub fn is_float(&self) -> (r: bool)
        ensures
            r == match *self {
                Type::Number(v) => v is Float,
                _ => false,
            },
    {
        match self {
            Type::Number(v) => v.is_float(),
            _ => false,
        }
    }

    /// Whether this is a signed number type.
    pub fn is_signed(&self) -> (r: bool)
        ensures
            r == match *self {
                Type::Number(NumberType::Int(i)) => i is I8 || i is I16 || i is I32 || i is I64,
                Type::Number(NumberType::Float(_)) => true,
                _ => false,
            },
    {
        match self {
            Type::Number(v) => v.is_signed(),
            _ => false,
        }
    }

    /// Whether this marks `ty` as mutable.
    pub fn is_mut_of(&self, ty: Type) -> (r: bool)
        ensures
            r == match *self {
                Type::Mut(v) => same_type(*v.ty, ty),
                _ => false,
            },
    {
        match self {
            Type::Mut(v) => v.is_mut_of(ty),
            _ => false,
        }
    }

    /// Whether this is `mut Self`.
    pub fn is_mut_self(&self) -> (r: bool)
        ensures
            r == match *self {
                Type::Mut(v) => *v.ty is This,
                _ => false,
            },
    {
        match self {
            Type::Mut(v) => v.ty().is_self(),
            _ => false,
        }
    }

    /// The integer type, if this is one.
    pub fn as_int(&self) -> (r: Option<&IntType>)
        ensures
            r == match *self {
                Type::Number(NumberType::Int(i)) => Some(&i),
                _ => None,
            },
    {
        match self {
            Type::Number(v) => v.as_int(),
            _ => None,
        }
    }

    /// A copy of the integer type, if this is one.
    pub fn to_int(&self) -> (r: Option<IntType>)
        ensures
            r == match *self {
                Type::Number(NumberType::Int(i)) => Some(i),
                _ => None,
            },
    {
        match self.as_int() {
            Some(v) => Some(*v),
            None => None,
        }
    }

    /// The float type, if this is one.
    pub fn as_float(&self) -> (r: Option<&FloatType>)
        ensures
            r == match *self {
                Type::Number(NumberType::Float(f)) => Some(&f),
                _ => None,
            },
    {
        match self {
            Type::Number(v) => v.as_float(),
            _ => None,
        }
    }

    /// A copy of the float type, if this is one.
    pub fn to_float(&self) -> (r: Option<FloatType>)
        ensures
            r == match *self {
                Type::Number(NumberType::Float(f)) => Some(f),
                _ => None,
            },
    {
        match self.as_float() {
            Some(v) => Some(*v),
            None => None,
        }
    }

    /// Whether a value of this type can be assigned where `ty` is expected.
    pub fn assignable_to(&self, ty: Self) -> (r: bool)
        ensures
            r == assignable(*self, ty),
    {
        if self.is_any() || self.is_void() {
            false
        } else if ty.is_any() {
            true
        } else {
            types_equal(self, &ty)
        }
    }

    /// Whether a value of this type can be converted into `ty`.
    pub fn convertable_to(&self, ty: Self) -> (r: bool)
        ensures
            r == convertable(*self, ty),
    {
        if self.assignable_to(ty.clone()) {
            true
        } else if self.is_number() && ty.is_number() {
            true
        } else {
            (self.is_bool() || self.is_number() || self.is_str()) && ty.is_str()
        }
    }

    /// The `BoolType` inside, if this is one.
    pub fn as_bool(&self) -> (r: Option<&BoolType>)
        ensures
            r == match *self {
                Type::Bool(v) => Some(&v),
                _ => None,
            },
    {
        match self {
            Type::Bool(v) => Some(v),
            _ => None,
        }
    }

    /// A copy of the `BoolType` inside, if this is one.
    pub fn to_bool(&self) -> (r: Option<BoolType>)
        ensures
            r == match *self {
                Type::Bool(v) => Some(v),
                _ => None,
            },
    {
        match self.as_bool() {
            Some(v) => Some(*v),
            None => None,
        }
    }

    /// The `EnumType` inside, if this is one.
    pub fn as_enum(&self) -> (r: Option<&EnumType>)
        ensures
            r == match *self {
                Type::Enum(v) => Some(&*v),
                _ => None,
            },
    {
        match self {
            Type::Enum(v) => Some(&**v),
            _ => None,
        }
    }

    /// A copy of the `EnumType` inside, if this is one.
    pub fn to_enum(&self) -> (r: Option<EnumType>)
        ensures
            r == match *self {
                Type::Enum(v) => Some(*v),
                _ => None,
            },
    {
        match self.as_enum() {
            Some(v) => Some(v.clone()),
            None => None,
        }
    }

    /// The `RefType` inside, if this is one.
    pub fn as_ref(&self) -> (r: Option<&RefType>)
        ensures
            r == match *self {
                Type::Ref(v) => Some(&v),
                _ => None,
            },
    {
        match self {
            Type::Ref(v) => Some(v),
            _ => None,
        }
    }

    /// A copy of the `RefType` inside, if this is one.
    pub fn to_ref(&self) -> (r: Option<RefType>)
        ensures
            r == match *self {
                Type::Ref(v) => Some(v),
                _ => None,
            },
    {
        match self.as_ref() {
            Some(v) => Some(v.clone()),
            None => None,
        }
    }

    /// The `SliceType` inside, if this is one.
    pub fn as_slice(&self) -> (r: Option<&SliceType>)
        ensures
            r == match *self {
                Type::Slice(v) => Some(&v),
                _ => None,
            },
    {
        match self {
            Type::Slice(v) => Some(v),
            _ => None,
        }
    }

    /// A copy of the `SliceType` inside, if this is one.
    pub fn to_slice(&self) -> (r: Option<SliceType>)
        ensures
            r == match *self {
                Type::Slice(v) => Some(v),
                _ => None,
            },
    {
        match self.as_slice() {
            Some(v) => Some(v.clone()),
            None => None,
        }
    }

    /// The `StructType` inside, if this is one.
    pub fn as_struct(&self) -> (r: Option<&StructType>)
        ensures
            r == match *self {
                Type::Struct(v) => Some(&*v),
                _ => None,
            },
    {
        match self {
            Type::Struct(v) => Some(&**v),
            _ => None,
        }
    }

    /// A copy of the `StructType` inside, if this is one.
    pub fn to_struct(&self) -> (r: Option<StructType>)
        ensures
            r == match *self {
                Type::Struct(v) => Some(*v),
                _ => None,
            },
    {
        match self.as_struct() {
            Some(v) => Some(v.clone()),
            None => None,
        }
    }

    /// The `NumberType` inside, if this is one.
    pub fn as_number(&self) -> (r: Option<&NumberType>)
        ensures
            r == match *self {
                Type::Number(v) => Some(&v),
                _ => None,
            },
    {
        match self {
            Type::Number(v) => Some(v),
            _ => None,
        }
    }

    /// A copy of the `NumberType` inside, if this is one.
    pub fn to_number(&self) -> (r: Option<NumberType>)
        ensures
            r == match *self {
                Type::Number(v) => Some(v),
                _ => None,
            },
    {
        match self.as_number() {
            Some(v) => Some(*v),
            None => None,
        }
    }

    /// The `StrType` inside, if this is one.
    pub fn as_str(&self) -> (r: Option<&StrType>)
        ensures
            r == match *self {
                Type::Str(v) => Some(&v),
                _ => None,
            },
    {
        match self {
            Type::Str(v) => Some(v),
            _ => None,
        }
    }

    /// A copy of the `StrType` inside, if this is one.
    pub fn to_str(&self) -> (r: Option<StrType>)
        ensures
            r == match *self {
                Type::Str(v) => Some(v),
                _ => None,
            },
    {
        match self.as_str() {
            Some(v) => Some(*v),
            None => None,
        }
    }

    /// The `ThisType` inside, if this is one.
    pub fn as_self(&self) -> (r: Option<&ThisType>)
        ensures
            r == match *self {
                Type::This(v) => Some(&v),
                _ => None,
            },
    {
        match self {
            Type::This(v) => Some(v),
            _ => None,
        }
    }

    /// A copy of the `ThisType` inside, if this is one.
    pub fn to_self(&self) -> (r: Option<ThisType>)
        ensures
            r == match *self {
                Type::This(v) => Some(v),
                _ => None,
            },
    {
        match self.as_self() {
            Some(v) => Some(*v),
            None => None,
        }
    }

    /// The `TupleType` inside, if this is one.
    pub fn as_tuple(&self) -> (r: Option<&TupleType>)
        ensures
            r == match *self {
                Type::Tuple(v) => Some(&*v),
                _ => None,
            },
    {
        match self {
            Type::Tuple(v) => Some(&**v),
            _ => None,
        }
    }

    /// A copy of the `TupleType` inside, if this is one.
    pub fn to_tuple(&self) -> (r: Option<TupleType>)
        ensures
            r == match *self {
                Type::Tuple(v) => Some(*v),
                _ => None,
            },
    {
        match self.as_tuple() {
            Some(v) => Some(v.clone()),
            None => None,
        }
    }

    /// The `TraitType` inside, if this is one.
    pub fn as_trait(&self) -> (r: Option<&TraitType>)
        ensures
            r == match *self {
                Type::Trait(v) => Some(&*v),
                _ => None,
            },
    {
        match self {
            Type::Trait(v) => Some(&**v),
            _ => None,
        }
    }

    /// A copy of the `TraitType` inside, if this is one.
    pub fn to_trait(&self) -> (r: Option<TraitType>)
        ensures
            r == match *self {
                Type::Trait(v) => Some(*v),
                _ => None,
            },
    {
        match self.as_trait() {
            Some(v) => Some(v.clone()),
            None => None,
        }
    }

    /// The `MutType` inside, if this is one.
    pub fn as_mut(&self) -> (r: Option<&MutType>)
        ensures
            r == match *self {
                Type::Mut(v) => Some(&v),
                _ => None,
            },
    {
        match self {
            Type::Mut(v) => Some(v),
            _ => None,
        }
    }

    /// A copy of the `MutType` inside, if this is one.
    pub fn to_mut(&self) -> (r: Option<MutType>)
        ensures
            r == match *self {
                Type::Mut(v) => Some(v),
                _ => None,
            },
    {
        match self.as_mut() {
            Some(v) => Some(v.clone()),
            None => None,
        }
    }

    /// The `ModType` inside, if this is one.
    pub fn as_mod(&self) -> (r: Option<&ModType>)
        ensures
            r == match *self {
                Type::Mod(v) => Some(&*v),
                _ => None,
            },
    {
        match self {
            Type::Mod(v) => Some(&**v),
            _ => None,
        }
    }

    /// A copy of the `ModType` inside, if this is one.
    pub fn to_mod(&self) -> (r: Option<ModType>)
        ensures
            r == match *self {
                Type::Mod(v) => Some(*v),
                _ => None,
            },
    {
        match self.as_mod() {
            Some(v) => Some(v.clone()),
            None => None,
        }
    }

    /// The `MapType` inside, if this is one.
    pub fn as_map(&self) -> (r: Option<&MapType>)
        ensures
            r == match *self {
                Type::Mapping(v) => Some(&*v),
                _ => None,
            },
    {
        match self {
            Type::Mapping(v) => Some(&**v),
            _ => None,
        }
    }

    /// A copy of the `MapType` inside, if this is one.
    pub fn to_map(&self) -> (r: Option<MapType>)
        ensures
            r == match *self {
                Type::Mapping(v) => Some(*v),
                _ => None,
            },
    {
        match self.as_map() {
            Some(v) => Some(v.clone()),
            None => None,
        }
    }

    /// Whether this is the `Any` kind.
    pub fn is_any(&self) -> (r: bool)
        ensures
            r == (*self is Any),
    {
        matches!(self, Type::Any)
    }

    /// Whether this is the `Bool` kind.
    pub fn is_bool(&self) -> (r: bool)
        ensures
            r == (*self is Bool),
    {
        matches!(self, Type::Bool(_))
    }

    /// Whether this is the `Enum` kind.
    pub fn is_enum(&self) -> (r: bool)
        ensures
            r == (*self is Enum),
    {
        matches!(self, Type::Enum(_))
    }

    /// Whether this is the `Ref` kind.
    pub fn is_ref(&self) -> (r: bool)
        ensures
            r == (*self is Ref),
    {
        matches!(self, Type::Ref(_))
    }

    /// Whether this is the `Slice` kind.
    pub fn is_slice(&self) -> (r: bool)
        ensures
            r == (*self is Slice),
    {
        matches!(self, Type::Slice(_))
    }

    /// Whether this is the `Struct` kind.
    pub fn is_struct(&self) -> (r: bool)
        ensures
            r == (*self is Struct),
    {
        matches!(self, Type::Struct(_))
    }

    /// Whether this is the `Number` kind.
    pub fn is_number(&self) -> (r: bool)
        ensures
            r == (*self is Number),
    {
        matches!(self, Type::Number(_))
    }

    /// Whether this is the `Str` kind.
    pub fn is_str(&self) -> (r: bool)
        ensures
            r == (*self is Str),
    {
        matches!(self, Type::Str(_))
    }

    /// Whether this is the `This` kind.
    pub fn is_self(&self) -> (r: bool)
        ensures
            r == (*self is This),
    {
        matches!(self, Type::This(_))
    }

    /// Whether this is the `Tuple` kind.
    pub fn is_tuple(&self) -> (r: bool)
        ensures
            r == (*self is Tuple),
    {
        matches!(self, Type::Tuple(_))
    }

    /// Whether this is the `Trait` kind.
    pub fn is_trait(&self) -> (r: bool)
        ensures
            r == (*self is Trait),
    {
        matches!(self, Type::Trait(_))
    }

    /// Whether this is the `Mut` kind.
    pub fn is_mut(&self) -> (r: bool)
        ensures
            r == (*self is Mut),
    {
        matches!(self, Type::Mut(_))
    }

    /// Whether this is the `Mod` kind.
    pub fn is_mod(&self) -> (r: bool)
        ensures
            r == (*self is Mod),
    {
        matches!(self, Type::Mod(_))
    }

    /// Whether this is the `Mapping` kind.
    pub fn is_map(&self) -> (r: bool)
        ensures
            r == (*self is Mapping),
    {
        matches!(self, Type::Mapping(_))
    }

    /// Whether this is the `Void` kind.
    pub fn is_void(&self) -> (r: bool)
        ensures
            r == (*self is Void),
    {
        matches!(self, Type::Void)
    }

}

} // verus!
