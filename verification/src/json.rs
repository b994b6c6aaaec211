//! JSON documents, and the conversion of reflected values from and into them.
//!
//! A JSON array becomes a map keyed by the `u64` positions of its items; a JSON object
//! becomes a map keyed by its member names. In the other direction a map becomes an
//! object whose member names are the texts of its keys; a key of a kind that has no
//! text makes the whole value unserializable.

use vstd::prelude::*;
use crate::dynamic::{
    lemma_elements_decrease, lemma_sequence_view_decreases, object_entries, object_field, object_type, Dynamic, DynamicRef,
    Object, OwnedSequence, Sequence,
};
use crate::field::{field_name_text, Field};
use crate::number::{int_value, Float, Int, Number};
use crate::text::{signed_string, signed_text, Str};
use crate::types::{any_map_type, MapType, StructType, Type};
use crate::text::lemma_text_order_zero;
use crate::value::{
    first_not_less, key_order, law_insert_len, law_lookup_after_insert, law_lookup_other_after_insert,
    lemma_entries_decrease, lemma_first_not_less, lemma_first_not_less_props, lemma_insert_sorted, lemma_key_order,
    display_text, float_free, lemma_lookup_at, lemma_lookup_none, lemma_view_decreases, map_insert, map_lookup, sorted_keys, Value,
    ValueMap,
};

verus! {

/// A JSON document. Numbers keep the form they were read in; floats are held as the
/// bits of their IEEE-754 encoding.
pub enum Json {
    Null,
    Bool(bool),
    Int(i64),
    UInt(u64),
    F32(u32),
    F64(u64),
    Str(String),
    Array(Vec<Json>),
    Object(Vec<(JsonKey, Json)>),
}

/// The name of a member of a JSON object: a text, or a float still to be written as text.
pub enum JsonKey {
    Text(String),
    F32(u32),
    F64(u64),
}

/// The value a member name is read as.
pub open spec fn key_value(k: JsonKey) -> Value {
    match k {
        JsonKey::Text(s) => Value::Str(Str(s)),
        JsonKey::F32(b) => Value::Number(Number::Float(Float::F32(b))),
        JsonKey::F64(b) => Value::Number(Number::Float(Float::F64(b))),
    }
}

/// The position `i` as a key.
pub open spec fn index_key(i: int) -> Value {
    Value::Number(Number::Int(Int::U64(i as u64)))
}

/// `v` is the value read from the document `j`.
pub open spec fn from_json(j: Json, v: Value) -> bool
    decreases j, 2nat,
{
    match j {
        Json::Null => v is Null,
        Json::Bool(b) => v == Value::Bool(b),
        Json::Int(i) => v == Value::Number(Number::Int(Int::I64(i))),
        Json::UInt(u) => v == Value::Number(Number::Int(Int::U64(u))),
        Json::F32(b) => v == Value::Number(Number::Float(Float::F32(b))),
        Json::F64(b) => v == Value::Number(Number::Float(Float::F64(b))),
        Json::Str(s) => v is Str && v->Str_0@ == s@,
        Json::Array(items) => {
            &&& v is Mapping
            &&& v->Mapping_0.map_type() == any_map_type()
            &&& items_read(v->Mapping_0@, items@)
        },
        Json::Object(es) => {
            &&& v is Mapping
            &&& v->Mapping_0.map_type() == any_map_type()
            &&& members_stored(v->Mapping_0@, es@)
        },
    }
}

/// The entries are the items read, in order, each under its position.
pub open spec fn items_read(m: Seq<(Value, Value)>, items: Seq<Json>) -> bool
    decreases items, 0nat,
{
    if items.len() == 0 {
        m.len() == 0
    } else {
        &&& m.len() == items.len()
        &&& items_read(m.subrange(0, m.len() - 1), items.subrange(0, items.len() - 1))
        &&& m[m.len() - 1].0 == index_key(items.len() - 1)
        &&& from_json(items[items.len() - 1], m[m.len() - 1].1)
    }
}

/// The entries are those of an empty map after storing, member by member in order, a
/// value read from each member's document under its name.
pub open spec fn members_stored(m: Seq<(Value, Value)>, es: Seq<(JsonKey, Json)>) -> bool
    decreases es, 1nat,
{
    if es.len() == 0 {
        m.len() == 0
    } else {
        exists|before: Seq<(Value, Value)>, x: Value|
            #![trigger map_insert(before, key_value(es[es.len() - 1].0), x)]
            {
                &&& members_stored(before, es.subrange(0, es.len() - 1))
                &&& from_json(es[es.len() - 1].1, x)
                &&& m == map_insert(before, key_value(es[es.len() - 1].0), x)
            }
    }
}

/// Entry `i` is under position `i` and holds a value read from item `i`.
pub open spec fn item_read(m: Seq<(Value, Value)>, items: Seq<Json>, i: int) -> bool {
    m[i].0 == index_key(i) && from_json(items[i], m[i].1)
}

proof fn lemma_items_read(m: Seq<(Value, Value)>, items: Seq<Json>)
    requires
        m.len() == items.len(),
        forall|i: int| 0 <= i < items.len() ==> #[trigger] item_read(m, items, i),
    ensures
        items_read(m, items),
    decreases items.len(),
{
    if items.len() > 0 {
        let m1 = m.subrange(0, m.len() - 1);
        let i1 = items.subrange(0, items.len() - 1);
        assert forall|i: int| 0 <= i < i1.len() implies #[trigger] item_read(m1, i1, i) by {
            assert(item_read(m, items, i));
            assert(m1[i] == m[i] && i1[i] == items[i]);
        }
        lemma_items_read(m1, i1);
        assert(item_read(m, items, items.len() - 1));
    }
}

fn key_to_value(k: &JsonKey) -> (r: Value)
    ensures
        r == key_value(*k),
{
    match k {
        JsonKey::Text(s) => Value::Str(Str(s.clone())),
        JsonKey::F32(b) => Value::Number(Number::Float(Float::F32(*b))),
        JsonKey::F64(b) => Value::Number(Number::Float(Float::F64(*b))),
    }
}

/// The value read from a JSON document.
pub fn value_from_json(j: &Json) -> (r: Value)
    ensures
        from_json(*j, r),
    decreases *j,
{
    match j {
        Json::Null => Value::Null,
        Json::Bool(b) => Value::Bool(*b),
        Json::Int(i) => Value::Number(Number::Int(Int::I64(*i))),
        Json::UInt(u) => Value::Number(Number::Int(Int::U64(*u))),
        Json::F32(b) => Value::Number(Number::Float(Float::F32(*b))),
        Json::F64(b) => Value::Number(Number::Float(Float::F64(*b))),
        Json::Str(s) => Value::Str(Str(s.clone())),
        Json::Array(items) => {
            let ty = MapType::new(Type::Any, Type::Any, Type::Any);
            let mut map = ValueMap::new(&ty);
            let mut i: usize = 0;
            while i < items.len()
                invariant
                    i <= items@.len(),
                    *j == Json::Array(*items),
                    map.map_type() == any_map_type(),
                    map@.len() == i,
                    forall|k: int| 0 <= k < i ==> #[trigger] item_read(map@, items@, k),
                decreases items@.len() - i,
            {
                proof {
                    assert(decreases_to!(*j => (*j)->Array_0));
                    assert(decreases_to!((*j)->Array_0 => items@));
                    assert(decreases_to!(items@ => items@[i as int]));
                }
                let x = value_from_json(&items[i]);
                let key = Value::Number(Number::Int(Int::U64(i as u64)));
                let ghost before = map@;
                proof {
                    assert forall|k: int| 0 <= k < before.len() implies #[trigger] key_order(before[k].0, key) < 0 by {
                        assert(item_read(before, items@, k));
                    }
                    lemma_first_not_less(before, key, before.len() as int);
                }
                map.insert(key, x);
                assert(map@ == before.insert(before.len() as int, (key, x)));
                assert forall|k: int| 0 <= k < i + 1 implies #[trigger] item_read(map@, items@, k) by {
                    if k < i {
                        assert(map@[k] == before[k]);
                        assert(item_read(before, items@, k));
                    }
                }
                i = i + 1;
            }
            proof {
                lemma_items_read(map@, items@);
            }
            Value::Mapping(map)
        },
        Json::Object(es) => {
            let ty = MapType::new(Type::Any, Type::Any, Type::Any);
            let mut map = ValueMap::new(&ty);
            let mut n: usize = 0;
            while n < es.len()
                invariant
                    n <= es@.len(),
                    *j == Json::Object(*es),
                    map.map_type() == any_map_type(),
                    members_stored(map@, es@.subrange(0, n as int)),
                decreases es@.len() - n,
            {
                proof {
                    assert(decreases_to!(*j => (*j)->Object_0));
                    assert(decreases_to!((*j)->Object_0 => es@));
                    assert(decreases_to!(es@ => es@[n as int]));
                    assert(decreases_to!(es@[n as int] => es@[n as int].1));
                }
                let x = value_from_json(&es[n].1);
                let key = key_to_value(&es[n].0);
                let ghost before = map@;
                map.insert(key, x);
                proof {
                    let s1 = es@.subrange(0, n + 1);
                    assert(s1.subrange(0, s1.len() - 1) =~= es@.subrange(0, n as int));
                    assert(s1[s1.len() - 1] == es@[n as int]);
                    assert(map@ == map_insert(before, key_value(s1[s1.len() - 1].0), x));
                }
                n = n + 1;
            }
            proof {
                assert(es@.subrange(0, es@.len() as int) =~= es@);
            }
            Value::Mapping(map)
        },
    }
}

/// Whether a value can be written as JSON: every map key, at any depth, is a string, a
/// boolean, an integer or a float.
pub open spec fn serializable(v: Value) -> bool
    decreases v, 1nat,
{
    match v {
        Value::Mapping(m) => {
            proof {
                lemma_view_decreases(v);
            }
            entries_serializable(m@)
        },
        Value::Dynamic(Dynamic::Sequence(q)) => {
            proof {
                lemma_sequence_view_decreases(v);
            }
            elements_serializable(q@)
        },
        _ => true,
    }
}

/// Every entry has a member name and a serializable value.
pub open spec fn entries_serializable(s: Seq<(Value, Value)>) -> bool
    decreases s, 0nat,
{
    if s.len() == 0 {
        true
    } else {
        entries_serializable(s.subrange(0, s.len() - 1)) && key_serializable(s[s.len() - 1].0) && serializable(
            s[s.len() - 1].1,
        )
    }
}

/// Every element is serializable.
pub open spec fn elements_serializable(s: Seq<Value>) -> bool
    decreases s, 0nat,
{
    if s.len() == 0 {
        true
    } else {
        elements_serializable(s.subrange(0, s.len() - 1)) && serializable(s[s.len() - 1])
    }
}

/// Whether a map key has a JSON member name.
pub open spec fn key_serializable(k: Value) -> bool {
    k is Str || k is Bool || k is Number
}

/// The member name of a key: its text, or the float to be written as text.
pub open spec fn key_json(k: Value, jk: JsonKey) -> bool {
    match k {
        Value::Str(s) => jk is Text && jk->Text_0@ == s@,
        Value::Bool(b) => jk is Text && jk->Text_0@ == (if b { "true"@ } else { "false"@ }),
        Value::Number(Number::Int(i)) => jk is Text && jk->Text_0@ == signed_text(int_value(i)),
        Value::Number(Number::Float(Float::F32(b))) => jk == JsonKey::F32(b),
        Value::Number(Number::Float(Float::F64(b))) => jk == JsonKey::F64(b),
        _ => false,
    }
}

/// `j` is the JSON document a serializable value is written as: scalars as themselves
/// (signed integers as `Int`, unsigned as `UInt`), null and undefined as null, a map as
/// an object of its entries in order, a sequence as an array.
pub open spec fn to_json(v: Value, j: Json) -> bool
    decreases v, 1nat,
{
    match v {
        Value::Bool(b) => j == Json::Bool(b),
        Value::Number(Number::Int(i)) => match i {
            Int::U8(_) | Int::U16(_) | Int::U32(_) | Int::U64(_) => j == Json::UInt(int_value(i) as u64),
            _ => j == Json::Int(int_value(i) as i64),
        },
        Value::Number(Number::Float(Float::F32(b))) => j == Json::F32(b),
        Value::Number(Number::Float(Float::F64(b))) => j == Json::F64(b),
        Value::Str(s) => j is Str && j->Str_0@ == s@,
        Value::Null => j is Null,
        Value::Undefined => j is Null,
        Value::Mapping(m) => {
            proof {
                lemma_view_decreases(v);
            }
            j is Object && entries_written(m@, j->Object_0@)
        },
        Value::Dynamic(Dynamic::Sequence(q)) => {
            proof {
                lemma_sequence_view_decreases(v);
            }
            j is Array && elements_written(q@, j->Array_0@)
        },
    }
}

/// The members are the entries written, in order: each key's member name and each
/// value's document.
pub open spec fn entries_written(s: Seq<(Value, Value)>, es: Seq<(JsonKey, Json)>) -> bool
    decreases s, 0nat,
{
    if s.len() == 0 {
        es.len() == 0
    } else {
        &&& es.len() == s.len()
        &&& entries_written(s.subrange(0, s.len() - 1), es.subrange(0, es.len() - 1))
        &&& key_json(s[s.len() - 1].0, es[es.len() - 1].0)
        &&& to_json(s[s.len() - 1].1, es[es.len() - 1].1)
    }
}

/// The items are the elements written, in order.
pub open spec fn elements_written(s: Seq<Value>, js: Seq<Json>) -> bool
    decreases s, 0nat,
{
    if s.len() == 0 {
        js.len() == 0
    } else {
        &&& js.len() == s.len()
        &&& elements_written(s.subrange(0, s.len() - 1), js.subrange(0, js.len() - 1))
        &&& to_json(s[s.len() - 1], js[js.len() - 1])
    }
}

proof fn lemma_entries_serializable_prefix(s: Seq<(Value, Value)>, n: int)
    requires
        0 <= n <= s.len(),
        entries_serializable(s),
    ensures
        entries_serializable(s.subrange(0, n)),
    decreases s.len() - n,
{
    if n < s.len() {
        lemma_entries_serializable_prefix(s, n + 1);
        let t = s.subrange(0, n + 1);
        assert(t.subrange(0, t.len() - 1) =~= s.subrange(0, n));
    } else {
        assert(s.subrange(0, n) =~= s);
    }
}

proof fn lemma_elements_serializable_prefix(s: Seq<Value>, n: int)
    requires
        0 <= n <= s.len(),
        elements_serializable(s),
    ensures
        elements_serializable(s.subrange(0, n)),
    decreases s.len() - n,
{
    if n < s.len() {
        lemma_elements_serializable_prefix(s, n + 1);
        let t = s.subrange(0, n + 1);
        assert(t.subrange(0, t.len() - 1) =~= s.subrange(0, n));
    } else {
        assert(s.subrange(0, n) =~= s);
    }
}

fn key_to_json(k: &Value) -> (r: Option<JsonKey>)
    ensures
        key_serializable(*k) <==> r is Some,
        r matches Some(jk) ==> key_json(*k, jk),
{
    match k {
        Value::Str(s) => Some(JsonKey::Text(s.0.clone())),
        Value::Bool(b) => {
            let t = if *b { "true" } else { "false" };
            Some(JsonKey::Text(t.to_owned()))
        },
        Value::Number(Number::Int(i)) => Some(JsonKey::Text(signed_string(i.to_i128()))),
        Value::Number(Number::Float(Float::F32(b))) => Some(JsonKey::F32(*b)),
        Value::Number(Number::Float(Float::F64(b))) => Some(JsonKey::F64(*b)),
        _ => None,
    }
}

/// The JSON document a value is written as; `None` when a map key, at any depth, has no
/// member name.
pub fn json_from_value(v: &Value) -> (r: Option<Json>)
    ensures
        serializable(*v) <==> r is Some,
        r matches Some(j) ==> to_json(*v, j),
    decreases *v, 1nat,
{
    match v {
        Value::Bool(b) => Some(Json::Bool(*b)),
        Value::Number(Number::Int(i)) => match i {
            Int::I8(x) => Some(Json::Int(*x as i64)),
            Int::I16(x) => Some(Json::Int(*x as i64)),
            Int::I32(x) => Some(Json::Int(*x as i64)),
            Int::I64(x) => Some(Json::Int(*x)),
            Int::U8(x) => Some(Json::UInt(*x as u64)),
            Int::U16(x) => Some(Json::UInt(*x as u64)),
            Int::U32(x) => Some(Json::UInt(*x as u64)),
            Int::U64(x) => Some(Json::UInt(*x)),
        },
        Value::Number(Number::Float(Float::F32(b))) => Some(Json::F32(*b)),
        Value::Number(Number::Float(Float::F64(b))) => Some(Json::F64(*b)),
        Value::Str(s) => Some(Json::Str(s.0.clone())),
        Value::Null => Some(Json::Null),
        Value::Undefined => Some(Json::Null),
        Value::Mapping(m) => map_to_json(v, m),
        Value::Dynamic(Dynamic::Sequence(q)) => sequence_to_json(v, q),
    }
}

/// The entries of a map written as a JSON object.
fn map_to_json(v: &Value, m: &ValueMap) -> (r: Option<Json>)
    requires
        *v == Value::Mapping(*m),
    ensures
        serializable(*v) <==> r is Some,
        r matches Some(j) ==> to_json(*v, j),
    decreases *v, 0nat,
{
    let d = m.data();
    let mut out: Vec<(JsonKey, Json)> = Vec::new();
    let mut i: usize = 0;
    assert(m@.subrange(0, 0) =~= Seq::<(Value, Value)>::empty());
    while i < d.len()
        invariant
            i <= d@.len(),
            d@ == m@,
            *v == Value::Mapping(*m),
            out@.len() == i,
            entries_serializable(m@.subrange(0, i as int)),
            entries_written(m@.subrange(0, i as int), out@),
        decreases d@.len() - i,
    {
        proof {
            lemma_entries_decrease(*v, i as int);
        }
        let jk = key_to_json(&d[i].0);
        let jv = json_from_value(&d[i].1);
        let ghost t = m@.subrange(0, i + 1);
        assert(t.subrange(0, t.len() - 1) =~= m@.subrange(0, i as int));
        match (jk, jv) {
            (Some(a), Some(b)) => {
                let ghost before = out@;
                out.push((a, b));
                assert(out@.subrange(0, out@.len() - 1) =~= before);
            },
            _ => {
                proof {
                    assert(!entries_serializable(t));
                    if entries_serializable(m@) {
                        lemma_entries_serializable_prefix(m@, i + 1);
                    }
                }
                return None;
            },
        }
        i = i + 1;
    }
    assert(m@.subrange(0, m@.len() as int) =~= m@);
    Some(Json::Object(out))
}

/// The elements of a sequence written as a JSON array.
fn sequence_to_json(v: &Value, q: &OwnedSequence) -> (r: Option<Json>)
    requires
        *v == Value::Dynamic(Dynamic::Sequence(*q)),
    ensures
        serializable(*v) <==> r is Some,
        r matches Some(j) ==> to_json(*v, j),
    decreases *v, 0nat,
{
    let n = q.len();
    let mut out: Vec<Json> = Vec::new();
    let mut i: usize = 0;
    assert(q@.subrange(0, 0) =~= Seq::<Value>::empty());
    while i < n
        invariant
            i <= n,
            n == q@.len(),
            *v == Value::Dynamic(Dynamic::Sequence(*q)),
            out@.len() == i,
            elements_serializable(q@.subrange(0, i as int)),
            elements_written(q@.subrange(0, i as int), out@),
        decreases n - i,
    {
        proof {
            lemma_elements_decrease(*v, i as int);
        }
        let e = q.index(i);
        let ghost t = q@.subrange(0, i + 1);
        assert(t.subrange(0, t.len() - 1) =~= q@.subrange(0, i as int));
        match json_from_value(&e) {
            Some(x) => {
                let ghost before = out@;
                out.push(x);
                assert(out@.subrange(0, out@.len() - 1) =~= before);
            },
            None => {
                proof {
                    assert(!elements_serializable(t));
                    if elements_serializable(q@) {
                        lemma_elements_serializable_prefix(q@, i + 1);
                    }
                }
                return None;
            },
        }
        i = i + 1;
    }
    assert(q@.subrange(0, n as int) =~= q@);
    Some(Json::Array(out))
}

/// The document of a JSON number from its readings: as an `i64` when it has one, else as
/// a `u64`, else as the bits of an `f64`; null when it has none.
pub fn json_number(as_i64: Option<i64>, as_u64: Option<u64>, as_f64_bits: Option<u64>) -> (r: Json)
    ensures
        r == (match (as_i64, as_u64, as_f64_bits) {
            (Some(i), _, _) => Json::Int(i),
            (None, Some(u), _) => Json::UInt(u),
            (None, None, Some(b)) => Json::F64(b),
            (None, None, None) => Json::Null,
        }),
{
    match (as_i64, as_u64, as_f64_bits) {
        (Some(i), _, _) => Json::Int(i),
        (None, Some(u), _) => Json::UInt(u),
        (None, None, Some(b)) => Json::F64(b),
        (None, None, None) => Json::Null,
    }
}

/// Whether an entry key of an object can be written as a member name: a string, a
/// boolean or a number, or any other key that holds no float.
pub open spec fn object_key_writable(k: Value) -> bool {
    key_serializable(k) || float_free(k)
}

/// The member name an entry key of an object is written under: a string, boolean or
/// number key as in a map, any other key as its text.
pub open spec fn object_key_json(k: Value, jk: JsonKey) -> bool {
    if key_serializable(k) {
        key_json(k, jk)
    } else {
        jk is Text && jk->Text_0@ == display_text(k)
    }
}

/// Every entry of an object can be written: its key as a member name, its value as a
/// document.
pub open spec fn object_entries_writable(s: Seq<(Value, Value)>) -> bool {
    forall|i: int| #![trigger s[i]] 0 <= i < s.len() ==> object_key_writable(s[i].0) && serializable(s[i].1)
}

/// The members are the entries of an object written in order.
pub open spec fn object_entries_written(s: Seq<(Value, Value)>, es: Seq<(JsonKey, Json)>) -> bool {
    &&& es.len() == s.len()
    &&& forall|i: int| #![trigger es[i]] 0 <= i < s.len() ==> object_key_json(s[i].0, es[i].0) && to_json(s[i].1, es[i].1)
}

/// The members are the fields `fs` in order, each under its name with the document of
/// the value in `xs` at its position, a value that the object gives for that field.
pub open spec fn fields_given(d: DynamicRef, fs: Seq<Field>, xs: Seq<Value>, es: Seq<(JsonKey, Json)>) -> bool {
    &&& xs.len() == fs.len()
    &&& es.len() == fs.len()
    &&& forall|i: int| #![trigger es[i]] 0 <= i && i < fs.len() ==> {
        &&& es[i].0 is Text
        &&& es[i].0->Text_0@ == field_name_text(fs[i].name)
        &&& object_field(d, field_name_text(fs[i].name), xs[i])
        &&& to_json(xs[i], es[i].1)
    }
}

/// The members are the fields `fs` in order, each under its name with a document of a
/// value that the object gives for it.
pub open spec fn fields_written(d: DynamicRef, fs: Seq<Field>, es: Seq<(JsonKey, Json)>) -> bool {
    exists|xs: Seq<Value>| #[trigger] fields_given(d, fs, xs, es)
}

/// The items are the documents of the values `xs`, which a borrowed sequence gives at
/// their positions.
pub open spec fn items_given(d: DynamicRef, xs: Seq<Value>, js: Seq<Json>) -> bool {
    &&& xs.len() == d->Sequence_0.spec_len()
    &&& js.len() == xs.len()
    &&& forall|i: int| #![trigger js[i]] 0 <= i && i < js.len() ==> d->Sequence_0.index_ensures(i, xs[i]) && to_json(
        xs[i],
        js[i],
    )
}

/// The items are the elements of a borrowed sequence in order, each a document of a value
/// that the sequence gives at its position.
pub open spec fn items_written(d: DynamicRef, js: Seq<Json>) -> bool {
    exists|xs: Seq<Value>| #[trigger] items_given(d, xs, js)
}

/// `j` is the document a borrowed dynamic value is written as: null for a callable; for
/// an object, an object of its entries when it has them, else of its fields in order
/// under their names (none when its type is not a struct); for a sequence, an array of
/// its elements.
pub open spec fn dynamic_ref_json(d: DynamicRef, j: Json) -> bool {
    match d {
        DynamicRef::Callable(_) => j is Null,
        DynamicRef::Sequence(_) => j is Array && items_written(d, j->Array_0@),
        _ => j is Object && {
            ||| exists|m: ValueMap| #![trigger object_entries(d, Some(m))]
                object_entries(d, Some(m)) && object_entries_written(m@, j->Object_0@)
            ||| object_entries(d, None) && match object_type(d) {
                Type::Struct(st) => fields_written(d, st.fields@, j->Object_0@),
                _ => j->Object_0@.len() == 0,
            }
        },
    }
}

/// The field at `i` of `fs` may have the value `x`, which cannot be written.
pub open spec fn field_unwritable(d: DynamicRef, fs: Seq<Field>, i: int, x: Value) -> bool {
    0 <= i && i < fs.len() && object_field(d, field_name_text(fs[i].name), x) && !serializable(x)
}

/// The element at `i` of a borrowed sequence may be `x`, which cannot be written.
pub open spec fn element_unwritable(d: DynamicRef, i: int, x: Value) -> bool {
    0 <= i && i < d->Sequence_0.spec_len() && d->Sequence_0.index_ensures(i, x) && !serializable(x)
}

/// Whether something that a borrowed dynamic value may give cannot be written: an entry
/// of an object, or the value of one of its fields; an element of a sequence.
pub open spec fn dynamic_ref_unwritable(d: DynamicRef) -> bool {
    match d {
        DynamicRef::Callable(_) => false,
        DynamicRef::Sequence(_) => exists|i: int, x: Value| #[trigger] element_unwritable(d, i, x),
        _ => {
            ||| exists|m: ValueMap| #![trigger object_entries(d, Some(m))]
                object_entries(d, Some(m)) && !object_entries_writable(m@)
            ||| object_entries(d, None) && match object_type(d) {
                Type::Struct(st) => exists|i: int, x: Value| #[trigger] field_unwritable(d, st.fields@, i, x),
                _ => false,
            }
        },
    }
}

fn object_key_to_json(k: &Value) -> (r: Option<JsonKey>)
    ensures
        object_key_writable(*k) <==> r is Some,
        r matches Some(jk) ==> object_key_json(*k, jk),
{
    match key_to_json(k) {
        Some(jk) => Some(jk),
        None => if k.is_float_free() {
            Some(JsonKey::Text(k.to_string()))
        } else {
            None
        },
    }
}

/// The entries an object gives, written as a JSON object: each key as its member name
/// (the text of a key that is no string, boolean or number), each value as a document;
/// `None` when an entry cannot be written.
pub fn json_from_object_entries(m: &ValueMap) -> (r: Option<Json>)
    ensures
        object_entries_writable(m@) <==> r is Some,
        r matches Some(j) ==> j is Object && object_entries_written(m@, j->Object_0@),
{
    let d = m.data();
    let mut out: Vec<(JsonKey, Json)> = Vec::new();
    let mut i: usize = 0;
    while i < d.len()
        invariant
            i <= d@.len(),
            d@ == m@,
            out@.len() == i,
            forall|k: int| #![trigger m@[k]] 0 <= k < i ==> object_key_writable(m@[k].0) && serializable(m@[k].1),
            forall|k: int| #![trigger out@[k]] 0 <= k < i ==> object_key_json(m@[k].0, out@[k].0) && to_json(
                m@[k].1,
                out@[k].1,
            ),
        decreases d@.len() - i,
    {
        let jk = object_key_to_json(&d[i].0);
        let jv = json_from_value(&d[i].1);
        match (jk, jv) {
            (Some(a), Some(b)) => {
                out.push((a, b));
            },
            _ => {
                assert(!(object_key_writable(m@[i as int].0) && serializable(m@[i as int].1)));
                return None;
            },
        }
        i = i + 1;
    }
    Some(Json::Object(out))
}

fn json_from_fields(d: &DynamicRef, st: &StructType) -> (r: Option<Json>)
    requires
        *d is Object || *d is Bound,
    ensures
        r matches Some(j) ==> j is Object && fields_written(*d, st.fields@, j->Object_0@),
        r is None ==> exists|i: int, x: Value| #[trigger] field_unwritable(*d, st.fields@, i, x),
{
    let o = match d.as_object() {
        Some(o) => o,
        None => {
            return None;
        },
    };
    let fields = st.fields();
    let mut out: Vec<(JsonKey, Json)> = Vec::new();
    let mut i: usize = 0;
    let ghost mut xs: Seq<Value> = Seq::empty();
    while i < fields.len()
        invariant
            i <= fields@.len(),
            *d is Object ==> o == d->Object_0,
            *d is Bound ==> o == d->object,
            *d is Object || *d is Bound,
            fields@ == st.fields@,
            out@.len() == i,
            xs.len() == i,
            fields_given(*d, fields@.subrange(0, i as int), xs, out@),
        decreases fields@.len() - i,
    {
        let name = fields[i].name().to_string();
        let value = o.field(name.as_str());
        assert(object_field(*d, field_name_text(fields@[i as int].name), value));
        match json_from_value(&value) {
            Some(j) => {
                let ghost before = out@;
                let ghost xs0 = xs;
                out.push((JsonKey::Text(name), j));
                proof {
                    xs = xs.push(value);
                    let fs = fields@.subrange(0, i + 1);
                    assert forall|k: int| #![trigger out@[k]] 0 <= k && k < fs.len() implies {
                        &&& out@[k].0 is Text
                        &&& out@[k].0->Text_0@ == field_name_text(fs[k].name)
                        &&& object_field(*d, field_name_text(fs[k].name), xs[k])
                        &&& to_json(xs[k], out@[k].1)
                    } by {
                        if k < i {
                            assert(out@[k] == before[k]);
                            assert(xs[k] == xs0[k]);
                            assert(fs[k] == fields@.subrange(0, i as int)[k]);
                        }
                    }
                }
            },
            None => {
                assert(field_unwritable(*d, st.fields@, i as int, value));
                return None;
            },
        }
        i = i + 1;
    }
    assert(fields@.subrange(0, fields@.len() as int) =~= fields@);
    assert(fields_given(*d, st.fields@, xs, out@));
    Some(Json::Object(out))
}

fn json_from_items(d: &DynamicRef) -> (r: Option<Json>)
    requires
        *d is Sequence,
    ensures
        r matches Some(j) ==> j is Array && items_written(*d, j->Array_0@),
        r is None ==> exists|i: int, x: Value| #[trigger] element_unwritable(*d, i, x),
{
    let q = match d.as_sequence() {
        Some(q) => q,
        None => {
            return None;
        },
    };
    let n = q.len();
    let mut out: Vec<Json> = Vec::new();
    let mut i: usize = 0;
    let ghost mut xs: Seq<Value> = Seq::empty();
    while i < n
        invariant
            *d is Sequence,
            q == d->Sequence_0,
            n == q.spec_len(),
            i <= n,
            out@.len() == i,
            xs.len() == i,
            forall|k: int| #![trigger xs[k]] 0 <= k && k < i ==> q.index_ensures(k, xs[k]) && to_json(xs[k], out@[k]),
        decreases n - i,
    {
        let e = q.index(i);
        match json_from_value(&e) {
            Some(x) => {
                let ghost before = out@;
                out.push(x);
                proof {
                    xs = xs.push(e);
                    assert forall|k: int| #![trigger xs[k]] 0 <= k && k < i + 1 implies q.index_ensures(k, xs[k])
                        && to_json(xs[k], out@[k]) by {
                        if k < i {
                            assert(out@[k] == before[k]);
                            assert(xs[k] == xs.drop_last()[k]);
                        }
                    }
                }
            },
            None => {
                assert(element_unwritable(*d, i as int, e));
                return None;
            },
        }
        i = i + 1;
    }
    assert forall|k: int| #![trigger out@[k]] 0 <= k && k < out@.len() implies d->Sequence_0.index_ensures(k, xs[k])
        && to_json(xs[k], out@[k]) by {}
    assert(items_given(*d, xs, out@));
    Some(Json::Array(out))
}

/// The document a borrowed dynamic value is written as (see `dynamic_ref_json`); `None`
/// when something it gives cannot be written.
pub fn json_from_dynamic_ref(d: &DynamicRef) -> (r: Option<Json>)
    ensures
        r matches Some(j) ==> dynamic_ref_json(*d, j),
        r is None ==> dynamic_ref_unwritable(*d),
{
    match d.as_object() {
        Some(o) => {
            let entries = o.entries();
            assert(object_entries(*d, entries));
            match entries {
                Some(m) => json_from_object_entries(&m),
                None => {
                    let t = o.to_type();
                    assert(t == object_type(*d));
                    match t.as_struct() {
                        Some(st) => json_from_fields(d, st),
                        None => {
                            let out: Vec<(JsonKey, Json)> = Vec::new();
                            Some(Json::Object(out))
                        },
                    }
                },
            }
        },
        None => match d.as_sequence() {
            Some(_) => json_from_items(d),
            None => Some(Json::Null),
        },
    }
}

/// A scalar document read as a value and written back is the same document.
pub proof fn law_json_scalar_round_trip(j: Json, v: Value, back: Json)
    requires
        !(j is Array || j is Object),
        from_json(j, v),
        to_json(v, back),
    ensures
        j is Str ==> back is Str && back->Str_0@ == j->Str_0@,
        !(j is Str) ==> back == j,
{
}

/// The names of the members are texts, no two the same.
pub open spec fn distinct_text_names(es: Seq<(JsonKey, Json)>) -> bool {
    &&& forall|i: int| 0 <= i < es.len() ==> (#[trigger] es[i]).0 is Text
    &&& forall|i: int, j: int|
        0 <= i < j < es.len() ==> (#[trigger] es[i]).0->Text_0@ != (#[trigger] es[j]).0->Text_0@
}

/// Whether a document is neither an array nor an object.
pub open spec fn is_scalar(j: Json) -> bool {
    !(j is Array || j is Object)
}

/// Two scalar documents are the same, strings compared by their text.
pub open spec fn same_scalar(a: Json, b: Json) -> bool {
    if a is Str {
        b is Str && b->Str_0@ == a->Str_0@
    } else {
        b == a
    }
}

/// The map read from members with distinct text names holds one entry per member, and
/// under each member's name a value read from its document; its keys stay sorted.
proof fn lemma_members_lookup(m: Seq<(Value, Value)>, es: Seq<(JsonKey, Json)>)
    requires
        members_stored(m, es),
        distinct_text_names(es),
    ensures
        sorted_keys(m),
        m.len() == es.len(),
        forall|i: int|
            0 <= i < es.len() ==> map_lookup(m, #[trigger] key_value(es[i].0)) is Some && from_json(
                es[i].1,
                map_lookup(m, key_value(es[i].0))->Some_0,
            ),
        forall|p: int|
            0 <= p < m.len() ==> exists|i: int| 0 <= i < es.len() && key_order(#[trigger] m[p].0, key_value(es[i].0)) == 0,
    decreases es.len(),
{
    if es.len() > 0 {
        let n = es.len() - 1;
        let e1 = es.subrange(0, n);
        let (before, x) = choose|before: Seq<(Value, Value)>, x: Value|
            {
                &&& members_stored(before, e1)
                &&& from_json(es[n].1, x)
                &&& m == #[trigger] map_insert(before, key_value(es[n].0), x)
            };
        assert forall|i: int, j: int| 0 <= i < j < e1.len() implies (#[trigger] e1[i]).0->Text_0@ != (
        #[trigger] e1[j]).0->Text_0@ by {
            assert(e1[i] == es[i] && e1[j] == es[j]);
        }
        assert forall|i: int| 0 <= i < e1.len() implies (#[trigger] e1[i]).0 is Text by {
            assert(e1[i] == es[i]);
        }
        lemma_members_lookup(before, e1);
        let k = key_value(es[n].0);
        assert forall|i: int| 0 <= i < e1.len() implies key_order(#[trigger] key_value(e1[i].0), k) != 0 by {
            assert(e1[i] == es[i]);
            lemma_text_order_zero(es[i].0->Text_0@, es[n].0->Text_0@);
        }
        assert forall|p: int| 0 <= p < before.len() implies key_order(#[trigger] before[p].0, k) != 0 by {
            let i = choose|i: int| 0 <= i < e1.len() && key_order(before[p].0, key_value(e1[i].0)) == 0;
            lemma_key_order(key_value(e1[i].0), before[p].0, k);
            lemma_key_order(before[p].0, key_value(e1[i].0), k);
            lemma_key_order(k, before[p].0, key_value(e1[i].0));
        }
        lemma_lookup_none(before, k);
        law_insert_len(before, k, x);
        lemma_insert_sorted(before, k, x);
        law_lookup_after_insert(before, k, x);
        assert forall|i: int| 0 <= i < es.len() implies map_lookup(m, #[trigger] key_value(es[i].0)) is Some
            && from_json(es[i].1, map_lookup(m, key_value(es[i].0))->Some_0) by {
            if i < n {
                assert(e1[i] == es[i]);
                assert(key_order(key_value(e1[i].0), k) != 0);
                law_lookup_other_after_insert(before, k, x, key_value(es[i].0));
            }
        }
        lemma_insert_keys(before, k, x);
        assert forall|p: int| 0 <= p < m.len() implies exists|i: int|
            0 <= i < es.len() && key_order(#[trigger] m[p].0, key_value(es[i].0)) == 0 by {
            if m[p].0 == k {
                lemma_key_order(k, k, k);
                assert(key_order(m[p].0, key_value(es[n].0)) == 0);
            } else {
                let q = choose|q: int| 0 <= q < before.len() && m[p].0 == before[q].0;
                let i = choose|i: int| 0 <= i < e1.len() && key_order(#[trigger] before[q].0, key_value(e1[i].0)) == 0;
                assert(e1[i] == es[i]);
                assert(key_order(m[p].0, key_value(es[i].0)) == 0);
            }
        }
    }
}

/// Every key after storing is the key stored or a key that was there before.
proof fn lemma_insert_keys(s: Seq<(Value, Value)>, k: Value, v: Value)
    ensures
        forall|p: int|
            0 <= p < map_insert(s, k, v).len() ==> #[trigger] map_insert(s, k, v)[p].0 == k || exists|q: int|
                0 <= q < s.len() && map_insert(s, k, v)[p].0 == s[q].0,
{
    lemma_first_not_less_props(s, k);
    let pos = first_not_less(s, k) as int;
    let t = map_insert(s, k, v);
    assert forall|p: int| 0 <= p < t.len() implies #[trigger] t[p].0 == k || exists|q: int|
        0 <= q < s.len() && t[p].0 == s[q].0 by {
        if pos < s.len() && key_order(s[pos].0, k) == 0 {
            assert(t[p].0 == s[p].0);
        } else if p < pos {
            assert(t[p] == s[p]);
        } else if p > pos {
            assert(t[p] == s[p - 1]);
        }
    }
}

/// The members written from entries match them one for one, in order.
proof fn lemma_entries_written_at(s: Seq<(Value, Value)>, es: Seq<(JsonKey, Json)>, k: int)
    requires
        entries_written(s, es),
        0 <= k < s.len(),
    ensures
        es.len() == s.len(),
        key_json(s[k].0, es[k].0),
        to_json(s[k].1, es[k].1),
    decreases s.len(),
{
    if k < s.len() - 1 {
        let s1 = s.subrange(0, s.len() - 1);
        let e1 = es.subrange(0, es.len() - 1);
        lemma_entries_written_at(s1, e1, k);
        assert(s1[k] == s[k] && e1[k] == es[k]);
    }
}

/// An object of scalar members under distinct text names, read as a value and written
/// back, is an object with the same members, one for one.
pub proof fn law_json_object_round_trip(j: Json, v: Value, back: Json)
    requires
        j is Object,
        distinct_text_names(j->Object_0@),
        forall|i: int| 0 <= i < j->Object_0@.len() ==> is_scalar(#[trigger] j->Object_0@[i].1),
        from_json(j, v),
        to_json(v, back),
    ensures
        back is Object,
        back->Object_0@.len() == j->Object_0@.len(),
        forall|i: int|
            0 <= i < j->Object_0@.len() ==> exists|k: int|
                0 <= k < back->Object_0@.len() && #[trigger] back->Object_0@[k].0 is Text
                    && back->Object_0@[k].0->Text_0@ == (#[trigger] j->Object_0@[i]).0->Text_0@ && same_scalar(
                    j->Object_0@[i].1,
                    back->Object_0@[k].1,
                ),
{
    let es = j->Object_0@;
    let m = v->Mapping_0@;
    lemma_members_lookup(m, es);
    let out = back->Object_0@;
    if m.len() > 0 {
        lemma_entries_written_at(m, out, 0);
    }
    assert forall|i: int| 0 <= i < es.len() implies exists|k: int|
        0 <= k < out.len() && #[trigger] out[k].0 is Text && out[k].0->Text_0@ == (#[trigger] es[i]).0->Text_0@
            && same_scalar(es[i].1, out[k].1) by {
        let key = key_value(es[i].0);
        lemma_first_not_less_props(m, key);
        let p = first_not_less(m, key) as int;
        let x = map_lookup(m, key)->Some_0;
        assert(m[p].1 == x);
        lemma_entries_written_at(m, out, p);
        lemma_text_order_zero(m[p].0->Str_0@, es[i].0->Text_0@);
        law_json_scalar_round_trip(es[i].1, x, out[p].1);
        assert(out[p].0 is Text);
    }
}

} // verus!
