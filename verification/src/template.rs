//! Template values, and the conversion of reflected values from and into them.
//!
//! A template engine hands the library values of its own kinds. `TemplateValue` holds
//! what the library reads of such a value; `TemplateOutput` says what the engine is to
//! build for a reflected value.

use vstd::prelude::*;
use crate::dynamic::{slice_of, Dynamic, OwnedSequence, Sequence};
use crate::number::{int_value, Float, Int, Number};
use crate::text::{concat3, decimal_string, decimal_text, Str};
use crate::types::{any_map_type, MapType, SliceType, Type};
use crate::value::{map_insert, map_lookup, Value, ValueMap};
use std::sync::Arc;

verus! {

/// What the library reads of a template value.
pub enum TemplateValue {
    /// A template value that wraps a reflected value.
    Reflected(Value),
    /// A map: each key the map enumerates, in that order, with the item under it.
    Entries(Vec<(TemplateValue, TemplateValue)>),
    /// A sequence or another iterable: its items in order.
    Items(Vec<TemplateValue>),
    /// `none`.
    Null,
    /// `undefined`.
    Undefined,
    Bool(bool),
    /// A number, by what it converts to: a `u64`, an `i64`, and the bits of an `f64`.
    Number(Option<u64>, Option<i64>, Option<u64>),
    Text(String),
    /// A value of a kind that the library does not read.
    Other,
}

/// What a template engine is to build for a reflected value.
pub enum TemplateOutput {
    /// An object of the engine's that wraps the reflected value.
    Object(Value),
    Bool(bool),
    U64(u64),
    I64(i64),
    /// A float, by the bits of its `f32` encoding, to be widened.
    F32(u32),
    /// A float, by the bits of its `f64` encoding.
    F64(u64),
    Text(String),
    /// `none`.
    Null,
    /// `undefined`.
    Undefined,
}

/// The value of a number that converts to `unsigned`, `signed` and `float`: a `u64`
/// where it converts to one, else an `i64`, else an `f64`, else null.
pub open spec fn number_value(unsigned: Option<u64>, signed: Option<i64>, float: Option<u64>) -> Value {
    match (unsigned, signed, float) {
        (Some(u), _, _) => Value::Number(Number::Int(Int::U64(u))),
        (None, Some(i), _) => Value::Number(Number::Int(Int::I64(i))),
        (None, None, Some(f)) => Value::Number(Number::Float(Float::F64(f))),
        (None, None, None) => Value::Null,
    }
}

/// `v` is the value read from the template value `t`: a wrapped reflected value as
/// itself; a map as a map of any type holding its items read under its keys read; a
/// sequence as an owned sequence, typed as a slice of `any`, of its items read;
/// `none`, `undefined` and other kinds as null.
pub open spec fn from_template(t: TemplateValue, v: Value) -> bool
    decreases t, 2nat,
{
    match t {
        TemplateValue::Reflected(x) => v == x,
        TemplateValue::Entries(es) => {
            &&& v is Mapping
            &&& v->Mapping_0.map_type() == any_map_type()
            &&& entries_stored(v->Mapping_0@, es@)
        },
        TemplateValue::Items(xs) => {
            &&& v is Dynamic
            &&& v->Dynamic_0 is Sequence
            &&& v->Dynamic_0->Sequence_0.seq_type() == slice_of(Type::Any)
            &&& items_read(v->Dynamic_0->Sequence_0@, xs@)
        },
        TemplateValue::Null => v is Null,
        TemplateValue::Undefined => v is Null,
        TemplateValue::Bool(b) => v == Value::Bool(b),
        TemplateValue::Number(u, i, f) => v == number_value(u, i, f),
        TemplateValue::Text(s) => v is Str && v->Str_0@ == s@,
        TemplateValue::Other => v is Null,
    }
}

/// The entries are those of an empty map after storing, entry by entry in order, the
/// item read under the key read.
pub open spec fn entries_stored(m: Seq<(Value, Value)>, es: Seq<(TemplateValue, TemplateValue)>) -> bool
    decreases es, 1nat,
{
    if es.len() == 0 {
        m.len() == 0
    } else {
        exists|before: Seq<(Value, Value)>, k: Value, x: Value|
            #![trigger map_insert(before, k, x)]
            {
                &&& entries_stored(before, es.subrange(0, es.len() - 1))
                &&& from_template(es[es.len() - 1].0, k)
                &&& from_template(es[es.len() - 1].1, x)
                &&& m == map_insert(before, k, x)
            }
    }
}

/// The values are the items read, in order.
pub open spec fn items_read(s: Seq<Value>, xs: Seq<TemplateValue>) -> bool
    decreases xs, 0nat,
{
    if xs.len() == 0 {
        s.len() == 0
    } else {
        &&& s.len() == xs.len()
        &&& items_read(s.subrange(0, s.len() - 1), xs.subrange(0, xs.len() - 1))
        &&& from_template(xs[xs.len() - 1], s[s.len() - 1])
    }
}

/// The value at `i` is read from the item at `i`.
pub open spec fn item_read(s: Seq<Value>, xs: Seq<TemplateValue>, i: int) -> bool {
    from_template(xs[i], s[i])
}

proof fn lemma_items_read(s: Seq<Value>, xs: Seq<TemplateValue>)
    requires
        s.len() == xs.len(),
        forall|i: int| 0 <= i < xs.len() ==> #[trigger] item_read(s, xs, i),
    ensures
        items_read(s, xs),
    decreases xs.len(),
{
    if xs.len() > 0 {
        let s1 = s.subrange(0, s.len() - 1);
        let x1 = xs.subrange(0, xs.len() - 1);
        assert forall|i: int| 0 <= i < x1.len() implies #[trigger] item_read(s1, x1, i) by {
            assert(item_read(s, xs, i));
            assert(s1[i] == s[i] && x1[i] == xs[i]);
        }
        lemma_items_read(s1, x1);
        assert(item_read(s, xs, xs.len() - 1));
    }
}

/// The value read from a template value.
pub fn value_from_template(t: &TemplateValue) -> (r: Value)
    ensures
        from_template(*t, r),
    decreases *t,
{
    match t {
        TemplateValue::Reflected(v) => v.clone(),
        TemplateValue::Entries(es) => {
            let ty = MapType::new(Type::Any, Type::Any, Type::Any);
            let mut map = ValueMap::new(&ty);
            let mut n: usize = 0;
            while n < es.len()
                invariant
                    n <= es@.len(),
                    *t == TemplateValue::Entries(*es),
                    map.map_type() == any_map_type(),
                    entries_stored(map@, es@.subrange(0, n as int)),
                decreases es@.len() - n,
            {
                proof {
                    assert(decreases_to!(*t => (*t)->Entries_0));
                    assert(decreases_to!((*t)->Entries_0 => es@));
                    assert(decreases_to!(es@ => es@[n as int]));
                    assert(decreases_to!(es@[n as int] => es@[n as int].0));
                    assert(decreases_to!(es@[n as int] => es@[n as int].1));
                }
                let k = value_from_template(&es[n].0);
                let x = value_from_template(&es[n].1);
                let ghost before = map@;
                map.insert(k, x);
                proof {
                    let s1 = es@.subrange(0, n + 1);
                    assert(s1.subrange(0, s1.len() - 1) =~= es@.subrange(0, n as int));
                    assert(s1[s1.len() - 1] == es@[n as int]);
                }
                n = n + 1;
            }
            proof {
                assert(es@.subrange(0, es@.len() as int) =~= es@);
            }
            Value::Mapping(map)
        },
        TemplateValue::Items(xs) => {
            let mut data: Vec<Value> = Vec::new();
            let mut i: usize = 0;
            while i < xs.len()
                invariant
                    i <= xs@.len(),
                    *t == TemplateValue::Items(*xs),
                    data@.len() == i,
                    forall|k: int| 0 <= k < i ==> #[trigger] item_read(data@, xs@, k),
                decreases xs@.len() - i,
            {
                proof {
                    assert(decreases_to!(*t => (*t)->Items_0));
                    assert(decreases_to!((*t)->Items_0 => xs@));
                    assert(decreases_to!(xs@ => xs@[i as int]));
                }
                let x = value_from_template(&xs[i]);
                let ghost before = data@;
                data.push(x);
                assert forall|k: int| 0 <= k < i + 1 implies #[trigger] item_read(data@, xs@, k) by {
                    if k < i {
                        assert(data@[k] == before[k]);
                        assert(item_read(before, xs@, k));
                    }
                }
                i = i + 1;
            }
            proof {
                lemma_items_read(data@, xs@);
            }
            let ty = Type::Slice(SliceType { ty: Arc::new(Type::Any), capacity: None });
            Value::Dynamic(Dynamic::Sequence(OwnedSequence::with_type(ty, data)))
        },
        TemplateValue::Null => Value::Null,
        TemplateValue::Undefined => Value::Null,
        TemplateValue::Bool(b) => Value::Bool(*b),
        TemplateValue::Number(u, i, f) => match (u, i, f) {
            (Some(u), _, _) => Value::Number(Number::Int(Int::U64(*u))),
            (None, Some(i), _) => Value::Number(Number::Int(Int::I64(*i))),
            (None, None, Some(f)) => Value::Number(Number::Float(Float::F64(*f))),
            (None, None, None) => Value::Null,
        },
        TemplateValue::Text(s) => Value::Str(Str(s.clone())),
        TemplateValue::Other => Value::Null,
    }
}

/// `o` is what the engine is to build for `v`: maps and dynamic values as objects that
/// wrap them; an unsigned 64-bit integer as a `u64` and any other integer as an `i64`;
/// floats, strings and booleans as themselves; null as `none`; undefined as `undefined`.
pub open spec fn to_template(v: Value, o: TemplateOutput) -> bool {
    match v {
        Value::Mapping(_) => o == TemplateOutput::Object(v),
        Value::Dynamic(_) => o == TemplateOutput::Object(v),
        Value::Bool(b) => o == TemplateOutput::Bool(b),
        Value::Number(Number::Int(Int::U64(n))) => o == TemplateOutput::U64(n),
        Value::Number(Number::Int(i)) => o == TemplateOutput::I64(int_value(i) as i64),
        Value::Number(Number::Float(Float::F32(b))) => o == TemplateOutput::F32(b),
        Value::Number(Number::Float(Float::F64(b))) => o == TemplateOutput::F64(b),
        Value::Str(s) => o is Text && o->Text_0@ == s@,
        Value::Null => o is Null,
        Value::Undefined => o is Undefined,
    }
}

/// What a template engine is to build for a reflected value.
pub fn value_to_minijinja(value: Value) -> (r: TemplateOutput)
    ensures
        to_template(value, r),
{
    match value {
        Value::Mapping(_) => TemplateOutput::Object(value),
        Value::Dynamic(_) => TemplateOutput::Object(value),
        Value::Bool(b) => TemplateOutput::Bool(b),
        Value::Number(Number::Int(Int::U64(n))) => TemplateOutput::U64(n),
        Value::Number(Number::Int(i)) => {
            let w = i.to_i128();
            assert(!(i is U64));
            assert(i64::MIN <= w <= i64::MAX);
            TemplateOutput::I64(w as i64)
        },
        Value::Number(Number::Float(Float::F32(b))) => TemplateOutput::F32(b),
        Value::Number(Number::Float(Float::F64(b))) => TemplateOutput::F64(b),
        Value::Str(s) => TemplateOutput::Text(s.0),
        Value::Null => TemplateOutput::Null,
        Value::Undefined => TemplateOutput::Undefined,
    }
}

/// The item that a template finds under `key` in a value it looks into: for a map, what
/// the engine is to build for the value stored under the key read; for a dynamic
/// sequence, the same for the element at `position` (what the key converts to as an
/// index), when it has one and is within range; nothing for any other value.
pub fn template_item(value: &Value, key: &TemplateValue, position: Option<usize>) -> (r: Option<TemplateOutput>)
    ensures
        match *value {
            Value::Mapping(m) => exists|k: Value|
                from_template(*key, k) && match #[trigger] map_lookup(m@, k) {
                    Some(x) => r matches Some(o) && to_template(x, o),
                    None => r is None,
                },
            Value::Dynamic(Dynamic::Sequence(q)) => match position {
                Some(i) => if i < q@.len() {
                    r matches Some(o) && to_template(q@[i as int], o)
                } else {
                    r is None
                },
                None => r is None,
            },
            _ => r is None,
        },
{
    match value {
        Value::Mapping(m) => {
            let k = value_from_template(key);
            let found = m.get(&k);
            match found {
                Some(x) => Some(value_to_minijinja(x.clone())),
                None => None,
            }
        },
        Value::Dynamic(Dynamic::Sequence(q)) => match position {
            Some(i) => {
                if i < q.len() {
                    Some(value_to_minijinja(q.element(i).clone()))
                } else {
                    None
                }
            },
            None => None,
        },
        _ => None,
    }
}

/// A map or dynamic value handed to the engine is wrapped as it is, and reading the
/// wrapper back gives the same value.
pub proof fn law_template_object_round_trip(v: Value, o: TemplateOutput, w: Value)
    requires
        v is Mapping || v is Dynamic,
        to_template(v, o),
        from_template(TemplateValue::Reflected(o->Object_0), w),
    ensures
        o is Object,
        w == v,
{
}

/// The message of an engine error: its text, followed by ` (line N)` when the error
/// names the line that it arose on.
pub fn engine_error_message(text: &str, line: Option<usize>) -> (r: String)
    ensures
        r@ == match line {
            Some(n) => text@ + " (line "@ + decimal_text(n as nat) + ")"@,
            None => text@,
        },
{
    match line {
        Some(n) => {
            let digits = decimal_string(n as u128);
            let mut s = concat3(text, " (line ", digits.as_str());
            s.append(")");
            s
        },
        None => text.to_owned(),
    }
}

} // verus!
