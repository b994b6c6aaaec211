//! Reflection values and types, with JSON-Schema-style validators over them.

pub mod float_bits;
pub mod text;
pub mod types;
pub mod number;
pub mod value;
pub mod dynamic;
pub mod field;
pub mod meta_data;
pub mod item;
pub mod to_value;
pub mod try_from;
pub mod json;
pub mod template;
pub mod fs;
pub mod http;
pub mod parse;
pub mod step;
pub mod schema;

pub use text::Str;
pub use number::{Float, Int, Number};
pub use types::{
    BoolType, EnumType, FloatType, IntType, MapType, ModType, MutType, NumberType, Path, Public,
    RefType, SliceType, StrType, StructType, ThisType, TraitType, TupleType, Type, TypeId, Visibility,
};
pub use value::{Value, ValueMap, ValueRef};
pub use dynamic::{Callable, Dyn, Dynamic, DynamicRef, Object, OwnedSequence, Sequence};
pub use field::{field, Field, FieldBuilder, FieldName};
pub use meta_data::MetaData;
pub use item::{Impl, Item};
pub use to_value::{ToBox, ToValue, TypeOf};
