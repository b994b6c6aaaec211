//! How the attributes on a field of a reflected struct decide the field's reflection.
//!
//! An attribute `#[field("name")]` reflects the field under another name, and
//! `#[field(ignore)]` leaves it out. The parsing of attribute tokens is left to the
//! caller, who hands over what each attribute parses as.

use vstd::prelude::*;
use crate::text::text_eq;

verus! {

/// What an attribute on a field parses as.
pub struct AttrArgs {
    /// Whether the attribute's path is the single name `field`.
    pub is_field: bool,
    /// The value of its arguments, when they parse as one string literal.
    pub literal: Option<String>,
    /// The name, when its arguments parse as one identifier.
    pub ident: Option<String>,
}

/// How a field is reflected.
pub enum FieldAttr {
    /// Under its own name.
    Default,
    /// Under the given name.
    Alias(String),
    /// Not at all.
    Ignore,
}

/// Whether the attribute decides how its field is reflected: a `field` attribute whose
/// arguments are a string literal or the identifier `ignore`.
pub open spec fn attr_decides(a: AttrArgs) -> bool {
    a.is_field && (a.literal is Some || (a.ident matches Some(s) && s@ == "ignore"@))
}

/// What a deciding attribute decides: an alias when its arguments are a string literal,
/// else to leave the field out.
pub open spec fn attr_meaning(a: AttrArgs) -> FieldAttr {
    match a.literal {
        Some(s) => FieldAttr::Alias(s),
        None => FieldAttr::Ignore,
    }
}

/// How the attributes `s` reflect their field: as the first deciding attribute decides,
/// else under its own name.
pub open spec fn field_attr_of(s: Seq<AttrArgs>) -> FieldAttr
    decreases s.len(),
{
    if s.len() == 0 {
        FieldAttr::Default
    } else if attr_decides(s[0]) {
        attr_meaning(s[0])
    } else {
        field_attr_of(s.drop_first())
    }
}

proof fn lemma_field_attr_skip(s: Seq<AttrArgs>, i: int)
    requires
        0 <= i <= s.len(),
        forall|j: int| 0 <= j < i ==> !attr_decides(#[trigger] s[j]),
    ensures
        field_attr_of(s) == field_attr_of(s.subrange(i, s.len() as int)),
    decreases i,
{
    if i > 0 {
        let t = s.drop_first();
        assert forall|j: int| 0 <= j < i - 1 implies !attr_decides(#[trigger] t[j]) by {
            assert(t[j] == s[j + 1]);
        }
        lemma_field_attr_skip(t, i - 1);
        assert(t.subrange(i - 1, t.len() as int) =~= s.subrange(i, s.len() as int));
    } else {
        assert(s.subrange(0, s.len() as int) =~= s);
    }
}

/// How the attributes on a field reflect it.
pub fn field_attr(attrs: &[AttrArgs]) -> (r: FieldAttr)
    ensures
        r == field_attr_of(attrs@),
{
    let mut i: usize = 0;
    while i < attrs.len()
        invariant
            i <= attrs@.len(),
            forall|j: int| 0 <= j < i ==> !attr_decides(#[trigger] attrs@[j]),
        decreases attrs@.len() - i,
    {
        let a = &attrs[i];
        if a.is_field {
            match &a.literal {
                Some(lit) => {
                    proof {
                        lemma_field_attr_skip(attrs@, i as int);
                    }
                    return FieldAttr::Alias(lit.clone());
                },
                None => {},
            }
            match &a.ident {
                Some(ident) => {
                    if text_eq(ident.as_str(), "ignore") {
                        proof {
                            lemma_field_attr_skip(attrs@, i as int);
                        }
                        return FieldAttr::Ignore;
                    }
                },
                None => {},
            }
        }
        i = i + 1;
    }
    proof {
        lemma_field_attr_skip(attrs@, i as int);
    }
    FieldAttr::Default
}

} // verus!
