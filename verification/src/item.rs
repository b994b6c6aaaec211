//! Items of a reflected module: types and impl blocks.

use std::sync::Arc;
use vstd::prelude::*;
use crate::meta_data::MetaData;
use crate::types::{type_text, Path, Type, TypeId};

verus! {

/// An impl block: the type it implements for, the trait it implements (if any), its
/// module path and metadata.
pub struct Impl {
    pub path: Path,
    pub ty: Arc<Type>,
    pub of: Option<Path>,
    pub meta: MetaData,
}

/// An item of a module.
pub enum Item {
    Type(Type),
    Impl(Impl),
}

impl Clone for Impl {
    fn clone(&self) -> (r: Self)
        ensures
            r == *self,
    {
        let of = match &self.of {
            Some(p) => Some(p.clone()),
            None => None,
        };
        Impl { path: self.path.clone(), ty: self.ty.clone(), of, meta: self.meta.clone() }
    }
}

impl Impl {
    /// The identifier of an impl block: that of the type it implements for.
    pub fn id(&self) -> (r: TypeId)
        ensures
            r@ == type_text(*self.ty),
    {
        self.ty.id()
    }
}

/// The identifier of an item.
pub open spec fn item_id_text(i: Item) -> Seq<char> {
    match i {
        Item::Type(t) => type_text(t),
        Item::Impl(v) => type_text(*v.ty),
    }
}

impl Clone for Item {
    fn clone(&self) -> (r: Self)
        ensures
            r == *self,
    {
        match self {
            Item::Type(t) => Item::Type(t.clone()),
            Item::Impl(v) => Item::Impl(v.clone()),
        }
    }
}

impl Item {
    /// The identifier of the item.
    pub fn id(&self) -> (r: TypeId)
        ensures
            r@ == item_id_text(*self),
    {
        match self {
            Item::Type(t) => t.id(),
            Item::Impl(v) => v.id(),
        }
    }

    /// Whether the item is a type.
    pub fn is_type(&self) -> (r: bool)
        ensures
            r == (*self is Type),
    {
        matches!(self, Item::Type(_))
    }

    /// Whether the item is an impl block.
    pub fn is_impl(&self) -> (r: bool)
        ensures
            r == (*self is Impl),
    {
        matches!(self, Item::Impl(_))
    }

    /// The type, if the item is one.
    pub fn to_type(&self) -> (r: Option<Type>)
        ensures
            match *self {
                Item::Type(t) => r == Some(t),
                Item::Impl(_) => r is None,
            },
    {
        match self {
            Item::Type(t) => Some(t.clone()),
            Item::Impl(_) => None,
        }
    }

    /// The impl block, if the item is one.
    pub fn to_impl(&self) -> (r: Option<Impl>)
        ensures
            match *self {
                Item::Impl(v) => r == Some(v),
                Item::Type(_) => r is None,
            },
    {
        match self {
            Item::Impl(v) => Some(v.clone()),
            Item::Type(_) => None,
        }
    }
}

} // verus!
