//! Fields of reflected structs, enums and traits.

use std::sync::Arc;
use vstd::prelude::*;
use crate::meta_data::MetaData;
use crate::text::{decimal_string, decimal_text};
use crate::types::{Type, Visibility};

verus! {

/// The name of a field: a key, or the position of an unnamed field.
pub enum FieldName {
    Key(String),
    Index(usize),
}

/// A field: its metadata, visibility, name and type.
pub struct Field {
    pub meta: MetaData,
    pub vis: Visibility,
    pub name: FieldName,
    pub ty: Arc<Type>,
}

/// Builds a `Field`, starting from a private field of type `any` named by the empty key.
pub struct FieldBuilder(pub Field);

/// A field builder.
pub fn field() -> (r: FieldBuilder)
    ensures
        r.0.name matches FieldName::Key(k) && k@.len() == 0,
        *r.0.ty == Type::Any,
        r.0.vis == Visibility::Private,
        r.0.meta@.len() == 0,
{
    FieldBuilder::new()
}

/// The text of a field name: the key, or the decimal position.
pub open spec fn field_name_text(n: FieldName) -> Seq<char> {
    match n {
        FieldName::Key(k) => k@,
        FieldName::Index(i) => decimal_text(i as nat),
    }
}

impl Clone for FieldName {
    fn clone(&self) -> (r: Self)
        ensures
            r == *self,
    {
        match self {
            FieldName::Key(k) => FieldName::Key(k.clone()),
            FieldName::Index(i) => FieldName::Index(*i),
        }
    }
}

impl PartialEq for FieldName {
    fn eq(&self, other: &Self) -> (r: bool) {
        match (self, other) {
            (FieldName::Key(a), FieldName::Key(b)) => crate::text::text_eq(a.as_str(), b.as_str()),
            (FieldName::Index(a), FieldName::Index(b)) => *a == *b,
            _ => false,
        }
    }
}

impl vstd::std_specs::cmp::PartialEqSpecImpl for FieldName {
    open spec fn obeys_eq_spec() -> bool {
        true
    }

    open spec fn eq_spec(&self, other: &FieldName) -> bool {
        match (*self, *other) {
            (FieldName::Key(a), FieldName::Key(b)) => a@ == b@,
            (FieldName::Index(a), FieldName::Index(b)) => a == b,
            _ => false,
        }
    }
}

impl FieldName {
    /// The name `value` as a key.
    pub fn from_str(value: &str) -> (r: Self)
        ensures
            r matches FieldName::Key(k) && k@ == value@,
    {
        FieldName::Key(value.to_owned())
    }

    /// Whether the name is a key.
    pub fn is_key(&self) -> (r: bool)
        ensures
            r == (*self is Key),
    {
        matches!(self, FieldName::Key(_))
    }

    /// Whether the name is a position.
    pub fn is_index(&self) -> (r: bool)
        ensures
            r == (*self is Index),
    {
        matches!(self, FieldName::Index(_))
    }

    /// The key, if the name is one.
    pub fn as_str(&self) -> (r: Option<&str>)
        ensures
            match *self {
                FieldName::Key(k) => r matches Some(s) && s@ == k@,
                FieldName::Index(_) => r is None,
            },
    {
        match self {
            FieldName::Key(k) => Some(k.as_str()),
            FieldName::Index(_) => None,
        }
    }

    /// The position, if the name is one.
    pub fn as_index(&self) -> (r: Option<&usize>)
        ensures
            match *self {
                FieldName::Index(i) => r == Some(&i),
                FieldName::Key(_) => r is None,
            },
    {
        match self {
            FieldName::Index(i) => Some(i),
            FieldName::Key(_) => None,
        }
    }

    /// The name as text: the key, or the decimal position.
    pub fn to_string(&self) -> (r: String)
        ensures
            r@ == field_name_text(*self),
    {
        match self {
            FieldName::Key(k) => k.clone(),
            FieldName::Index(i) => decimal_string(*i as u128),
        }
    }
}

impl Clone for Field {
    fn clone(&self) -> (r: Self)
        ensures
            r == *self,
    {
        Field { meta: self.meta.clone(), vis: self.vis, name: self.name.clone(), ty: self.ty.clone() }
    }
}

impl Field {
    /// The metadata of the field.
    pub fn meta(&self) -> (r: &MetaData)
        ensures
            *r == self.meta,
    {
        &self.meta
    }

    /// The visibility of the field.
    pub fn vis(&self) -> (r: &Visibility)
        ensures
            *r == self.vis,
    {
        &self.vis
    }

    /// The name of the field.
    pub fn name(&self) -> (r: &FieldName)
        ensures
            *r == self.name,
    {
        &self.name
    }

    /// The type of the field.
    pub fn ty(&self) -> (r: &Type)
        ensures
            *r == *self.ty,
    {
        &self.ty
    }
}

/// `f` with the name `n`.
pub open spec fn with_name(f: Field, n: FieldName) -> Field {
    Field { name: n, ..f }
}

/// `f` with the type `t`.
pub open spec fn with_ty(f: Field, t: Type) -> Field {
    Field { ty: Arc::new(t), ..f }
}

/// `f` with the metadata `m`.
pub open spec fn with_meta(f: Field, m: MetaData) -> Field {
    Field { meta: m, ..f }
}

/// `f` with the visibility `v`.
pub open spec fn with_vis(f: Field, v: Visibility) -> Field {
    Field { vis: v, ..f }
}

/// Setting different parts of a field in either order gives the same field, and a later
/// setting of a part replaces an earlier one.
pub proof fn law_field_setters(f: Field, n: FieldName, n2: FieldName, t: Type, t2: Type, m: MetaData, m2: MetaData, v: Visibility, v2: Visibility)
    ensures
        with_ty(with_name(f, n), t) == with_name(with_ty(f, t), n),
        with_meta(with_name(f, n), m) == with_name(with_meta(f, m), n),
        with_vis(with_name(f, n), v) == with_name(with_vis(f, v), n),
        with_meta(with_ty(f, t), m) == with_ty(with_meta(f, m), t),
        with_vis(with_ty(f, t), v) == with_ty(with_vis(f, v), t),
        with_vis(with_meta(f, m), v) == with_meta(with_vis(f, v), m),
        with_name(with_name(f, n), n2) == with_name(f, n2),
        with_ty(with_ty(f, t), t2) == with_ty(f, t2),
        with_meta(with_meta(f, m), m2) == with_meta(f, m2),
        with_vis(with_vis(f, v), v2) == with_vis(f, v2),
{
}

impl FieldBuilder {
    /// A builder of a private field of type `any` named by the empty key, with no metadata.
    pub fn new() -> (r: Self)
        ensures
            r.0.name matches FieldName::Key(k) && k@.len() == 0,
            *r.0.ty == Type::Any,
            r.0.vis == Visibility::Private,
            r.0.meta@.len() == 0,
    {
        let name = String::new();
        FieldBuilder(Field { meta: MetaData::new(), vis: Visibility::Private, name: FieldName::Key(name), ty: Arc::new(Type::Any) })
    }

    /// Sets the name.
    pub fn name(self, name: FieldName) -> (r: Self)
        ensures
            r.0 == with_name(self.0, name),
    {
        let mut f = self.0;
        f.name = name;
        FieldBuilder(f)
    }

    /// Sets the type.
    pub fn ty(self, ty: Type) -> (r: Self)
        ensures
            r.0 == with_ty(self.0, ty),
    {
        let mut f = self.0;
        f.ty = Arc::new(ty);
        FieldBuilder(f)
    }

    /// Sets the metadata.
    pub fn meta(self, meta: MetaData) -> (r: Self)
        ensures
            r.0 == with_meta(self.0, meta),
    {
        let mut f = self.0;
        f.meta = meta;
        FieldBuilder(f)
    }

    /// Sets the visibility.
    pub fn visibility(self, vis: Visibility) -> (r: Self)
        ensures
            r.0 == with_vis(self.0, vis),
    {
        let mut f = self.0;
        f.vis = vis;
        FieldBuilder(f)
    }

    /// The field built.
    pub fn build(self) -> (r: Field)
        ensures
            r == self.0,
    {
        self.0
    }
}

impl Default for FieldBuilder {
    fn default() -> (r: Self)
        ensures
            r.0.name matches FieldName::Key(k) && k@.len() == 0,
            *r.0.ty == Type::Any,
            r.0.vis == Visibility::Private,
            r.0.meta@.len() == 0,
    {
        FieldBuilder::new()
    }
}

} // verus!
