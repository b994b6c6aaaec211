//! Reflected values, the ordered maps they hold, and borrowed views of them.

use std::sync::Arc;
use vstd::prelude::*;
use crate::dynamic::{dynamic_len, dynamic_ref_len, dynamic_ref_type, dynamic_type, materialized, sequence_ref, Dynamic, DynamicRef, Sequence};
use crate::number::{
    compare_number_keys, float_nan, int_rank, int_value, Int, lemma_number_key_order, number_as_i16, number_as_i32, number_as_i64, number_as_i8,
    number_as_u16, number_as_u32, number_as_u64, number_as_u8, number_eq, number_key_order, number_type, numbers_equal,
    float_nonzero, law_float_nonzero_sign, Float, Number,
};
use crate::text::{
    compare_text, concat3, decimal_string, decimal_text, lemma_text_order_antisym, lemma_text_order_trans,
    lemma_text_order_zero, signed_string, signed_text, text_eq, text_order, Str,
};
use crate::types::{type_text, BoolType, MapType, StrType, Type};

verus! {

/// A reflected value.
pub enum Value {
    Bool(bool),
    Number(Number),
    Str(Str),
    Mapping(ValueMap),
    Dynamic(Dynamic),
    Null,
    Undefined,
}

/// A map from values to values, ordered by its keys.
pub struct ValueMap {
    ty: Arc<MapType>,
    data: Arc<Vec<(Value, Value)>>,
}

/// The rank of a value's kind in the order of map keys.
pub open spec fn kind_rank(v: Value) -> int {
    match v {
        Value::Bool(_) => 0,
        Value::Number(_) => 1,
        Value::Str(_) => 2,
        Value::Mapping(_) => 3,
        Value::Dynamic(_) => 4,
        Value::Null => 5,
        Value::Undefined => 6,
    }
}

/// The order of map keys, -1, 0 or 1: by kind first; booleans with `false` first,
/// numbers by `number_key_order`, strings by code points. Two keys of any other kind
/// are alike.
pub open spec fn key_order(a: Value, b: Value) -> int {
    if kind_rank(a) < kind_rank(b) {
        -1
    } else if kind_rank(a) > kind_rank(b) {
        1
    } else {
        match (a, b) {
            (Value::Bool(x), Value::Bool(y)) => if x == y { 0 } else if !x { -1 } else { 1 },
            (Value::Number(x), Value::Number(y)) => number_key_order(x, y),
            (Value::Str(x), Value::Str(y)) => text_order(x@, y@),
            _ => 0,
        }
    }
}

/// `key_order` is antisymmetric and transitive: a total preorder.
pub proof fn lemma_key_order(a: Value, b: Value, c: Value)
    ensures
        key_order(a, b) == -key_order(b, a),
        -1 <= key_order(a, b) <= 1,
        key_order(a, a) == 0,
        key_order(a, b) <= 0 && key_order(b, c) <= 0 ==> key_order(a, c) <= 0,
        key_order(a, b) < 0 && key_order(b, c) <= 0 ==> key_order(a, c) < 0,
        key_order(a, b) <= 0 && key_order(b, c) < 0 ==> key_order(a, c) < 0,
{
    lemma_number_key_order_cases(a, b, c);
    lemma_text_key_order_cases(a, b, c);
    if let Value::Number(x) = a {
        lemma_number_key_order(x, x, x);
    }
    if let Value::Str(x) = a {
        lemma_text_order_zero(x@, x@);
    }
}

proof fn lemma_number_key_order_cases(a: Value, b: Value, c: Value)
    ensures
        (a is Number && b is Number) ==> number_key_order(a->Number_0, b->Number_0) == -number_key_order(
            b->Number_0,
            a->Number_0,
        ) && -1 <= number_key_order(a->Number_0, b->Number_0) <= 1,
        (a is Number && b is Number && c is Number) ==> {
            let (x, y, z) = (a->Number_0, b->Number_0, c->Number_0);
            &&& number_key_order(x, y) <= 0 && number_key_order(y, z) <= 0 ==> number_key_order(x, z) <= 0
            &&& number_key_order(x, y) < 0 && number_key_order(y, z) <= 0 ==> number_key_order(x, z) < 0
            &&& number_key_order(x, y) <= 0 && number_key_order(y, z) < 0 ==> number_key_order(x, z) < 0
        },
{
    if let (Value::Number(x), Value::Number(y), Value::Number(z)) = (a, b, c) {
        lemma_number_key_order(x, y, z);
    } else if let (Value::Number(x), Value::Number(y)) = (a, b) {
        lemma_number_key_order(x, y, x);
    }
}

proof fn lemma_text_key_order_cases(a: Value, b: Value, c: Value)
    ensures
        (a is Str && b is Str) ==> text_order(a->Str_0@, b->Str_0@) == -text_order(b->Str_0@, a->Str_0@)
            && -1 <= text_order(a->Str_0@, b->Str_0@) <= 1,
        (a is Str && b is Str && c is Str) ==> {
            let (x, y, z) = (a->Str_0@, b->Str_0@, c->Str_0@);
            &&& text_order(x, y) <= 0 && text_order(y, z) <= 0 ==> text_order(x, z) <= 0
            &&& text_order(x, y) < 0 && text_order(y, z) <= 0 ==> text_order(x, z) < 0
            &&& text_order(x, y) <= 0 && text_order(y, z) < 0 ==> text_order(x, z) < 0
        },
{
    if let (Value::Str(x), Value::Str(y)) = (a, b) {
        lemma_text_order_antisym(x@, y@);
    }
    if let (Value::Str(x), Value::Str(y), Value::Str(z)) = (a, b, c) {
        lemma_text_order_zero(x@, y@);
        lemma_text_order_zero(y@, z@);
        lemma_text_order_zero(x@, z@);
        if text_order(x@, y@) < 0 && text_order(y@, z@) < 0 {
            lemma_text_order_trans(x@, y@, z@);
        }
    }
}

/// The order of two values as map keys.
pub fn compare_keys(a: &Value, b: &Value) -> (r: i8)
    ensures
        r as int == key_order(*a, *b),
{
    let ra = rank_of(a);
    let rb = rank_of(b);
    if ra < rb {
        return -1;
    } else if ra > rb {
        return 1;
    }
    match (a, b) {
        (Value::Bool(x), Value::Bool(y)) => if *x == *y { 0 } else if !*x { -1 } else { 1 },
        (Value::Number(x), Value::Number(y)) => compare_number_keys(x, y),
        (Value::Str(x), Value::Str(y)) => compare_text(x.as_str(), y.as_str()),
        _ => 0,
    }
}

fn rank_of(v: &Value) -> (r: u8)
    ensures
        r as int == kind_rank(*v),
{
    match v {
        Value::Bool(_) => 0,
        Value::Number(_) => 1,
        Value::Str(_) => 2,
        Value::Mapping(_) => 3,
        Value::Dynamic(_) => 4,
        Value::Null => 5,
        Value::Undefined => 6,
    }
}

/// Entries whose keys strictly increase.
pub open spec fn sorted_keys(s: Seq<(Value, Value)>) -> bool {
    forall|i: int, j: int| 0 <= i < j < s.len() ==> #[trigger] key_order(s[i].0, s[j].0) < 0
}

/// The index of the first entry whose key is not below `k`.
pub open spec fn first_not_less(s: Seq<(Value, Value)>, k: Value) -> nat
    decreases s.len(),
{
    if s.len() == 0 {
        0
    } else if key_order(s[0].0, k) >= 0 {
        0
    } else {
        1 + first_not_less(s.drop_first(), k)
    }
}

/// The value stored under `k`.
pub open spec fn map_lookup(s: Seq<(Value, Value)>, k: Value) -> Option<Value> {
    let p = first_not_less(s, k) as int;
    if p < s.len() && key_order(s[p].0, k) == 0 {
        Some(s[p].1)
    } else {
        None
    }
}

/// The entries after storing `v` under `k`: an entry with a key alike to `k`
/// keeps its key and takes `v`; else `(k, v)` goes where its key belongs.
pub open spec fn map_insert(s: Seq<(Value, Value)>, k: Value, v: Value) -> Seq<(Value, Value)> {
    let p = first_not_less(s, k) as int;
    if p < s.len() && key_order(s[p].0, k) == 0 {
        s.update(p, (s[p].0, v))
    } else {
        s.insert(p, (k, v))
    }
}

/// `first_not_less` is the index `p` before which every key is below `k` and at which
/// (if anywhere) the key is not.
pub proof fn lemma_first_not_less(s: Seq<(Value, Value)>, k: Value, p: int)
    requires
        0 <= p <= s.len(),
        forall|j: int| 0 <= j < p ==> #[trigger] key_order(s[j].0, k) < 0,
        p == s.len() || key_order(s[p].0, k) >= 0,
    ensures
        first_not_less(s, k) == p,
    decreases p,
{
    if p > 0 {
        assert(key_order(s[0].0, k) < 0);
        let t = s.drop_first();
        assert forall|j: int| 0 <= j < p - 1 implies #[trigger] key_order(t[j].0, k) < 0 by {
            assert(key_order(s[j + 1].0, k) < 0);
        }
        lemma_first_not_less(t, k, p - 1);
    }
}

/// What `first_not_less` finds.
pub proof fn lemma_first_not_less_props(s: Seq<(Value, Value)>, k: Value)
    ensures
        first_not_less(s, k) <= s.len(),
        forall|j: int| 0 <= j < first_not_less(s, k) ==> #[trigger] key_order(s[j].0, k) < 0,
        first_not_less(s, k) < s.len() ==> key_order(s[first_not_less(s, k) as int].0, k) >= 0,
    decreases s.len(),
{
    if s.len() > 0 && key_order(s[0].0, k) < 0 {
        let t = s.drop_first();
        lemma_first_not_less_props(t, k);
        assert forall|j: int| 0 <= j < first_not_less(s, k) implies #[trigger] key_order(s[j].0, k) < 0 by {
            if j > 0 {
                assert(key_order(t[j - 1].0, k) < 0);
            }
        }
    }
}

/// In sorted entries, an entry whose key is alike to `k` is the one `map_lookup` finds.
pub proof fn lemma_lookup_at(s: Seq<(Value, Value)>, k: Value, i: int)
    requires
        sorted_keys(s),
        0 <= i < s.len(),
        key_order(s[i].0, k) == 0,
    ensures
        first_not_less(s, k) == i,
        map_lookup(s, k) == Some(s[i].1),
{
    lemma_first_not_less_props(s, k);
    let p = first_not_less(s, k) as int;
    if p < i {
        assert(key_order(s[p].0, s[i].0) < 0);
        lemma_key_order(s[p].0, s[i].0, k);
        lemma_key_order(k, s[i].0, s[p].0);
        assert(false);
    } else if p > i {
        assert(key_order(s[i].0, k) < 0);
        assert(false);
    }
}

/// In sorted entries, `map_lookup` finds a value exactly when some key is alike to `k`.
pub proof fn lemma_lookup_none(s: Seq<(Value, Value)>, k: Value)
    requires
        forall|i: int| 0 <= i < s.len() ==> key_order(#[trigger] s[i].0, k) != 0,
    ensures
        map_lookup(s, k) is None,
{
}

/// Storing keeps the keys sorted.
pub proof fn lemma_insert_sorted(s: Seq<(Value, Value)>, k: Value, v: Value)
    requires
        sorted_keys(s),
    ensures
        sorted_keys(map_insert(s, k, v)),
{
    lemma_first_not_less_props(s, k);
    let p = first_not_less(s, k) as int;
    let t = map_insert(s, k, v);
    if p < s.len() && key_order(s[p].0, k) == 0 {
        assert forall|i: int, j: int| 0 <= i < j < t.len() implies #[trigger] key_order(t[i].0, t[j].0) < 0 by {
            assert(t[i].0 == s[i].0 && t[j].0 == s[j].0);
            assert(key_order(s[i].0, s[j].0) < 0);
        }
    } else {
        assert forall|i: int, j: int| 0 <= i < j < t.len() implies #[trigger] key_order(t[i].0, t[j].0) < 0 by {
            if j < p {
                assert(key_order(s[i].0, s[j].0) < 0);
            } else if j == p {
                assert(key_order(s[i].0, k) < 0);
            } else if i == p {
                lemma_key_order(s[p].0, k, k);
                if j - 1 > p {
                    assert(key_order(s[p].0, s[j - 1].0) < 0);
                    lemma_key_order(k, s[p].0, s[j - 1].0);
                }
            } else if i < p {
                assert(key_order(s[i].0, s[j - 1].0) < 0);
            } else {
                assert(key_order(s[i - 1].0, s[j - 1].0) < 0);
            }
        }
    }
}

/// After storing `v` under `k`, a lookup of `k` finds `v`.
pub proof fn law_lookup_after_insert(s: Seq<(Value, Value)>, k: Value, v: Value)
    ensures
        map_lookup(map_insert(s, k, v), k) == Some(v),
{
    lemma_first_not_less_props(s, k);
    lemma_key_order(k, k, k);
    let p = first_not_less(s, k) as int;
    let t = map_insert(s, k, v);
    assert forall|j: int| 0 <= j < p implies #[trigger] key_order(t[j].0, k) < 0 by {
        assert(t[j] == s[j]);
    }
    lemma_first_not_less(t, k, p);
}

/// Storing under `k` leaves what is stored under every key not alike to `k`.
pub proof fn law_lookup_other_after_insert(s: Seq<(Value, Value)>, k: Value, v: Value, k2: Value)
    requires
        sorted_keys(s),
        key_order(k2, k) != 0,
    ensures
        map_lookup(map_insert(s, k, v), k2) == map_lookup(s, k2),
{
    lemma_first_not_less_props(s, k);
    lemma_insert_sorted(s, k, v);
    let p = first_not_less(s, k) as int;
    let t = map_insert(s, k, v);
    let found = p < s.len() && key_order(s[p].0, k) == 0;
    lemma_key_order(k2, k, k);
    if found {
        lemma_key_order(s[p].0, k, k2);
        lemma_key_order(k2, s[p].0, k);
        lemma_key_order(k, s[p].0, k2);
        assert(t[p].0 == s[p].0);
    } else {
        assert(t[p].0 == k);
    }
    // the entry at `p` of the new entries is not under a key alike to `k2`
    assert(key_order(t[p].0, k2) != 0);
    // an entry of either sequence under a key alike to `k2` is an entry of the other
    if exists|i: int| 0 <= i < s.len() && key_order(#[trigger] s[i].0, k2) == 0 {
        let i = choose|i: int| 0 <= i < s.len() && key_order(#[trigger] s[i].0, k2) == 0;
        lemma_lookup_at(s, k2, i);
        let j = if found || i < p { i } else { i + 1 };
        assert(t[j] == s[i]);
        lemma_lookup_at(t, k2, j);
    } else if exists|j: int| 0 <= j < t.len() && key_order(#[trigger] t[j].0, k2) == 0 {
        let j = choose|j: int| 0 <= j < t.len() && key_order(#[trigger] t[j].0, k2) == 0;
        let i = if found || j < p { j } else { j - 1 };
        assert(t[j] == s[i]);
        assert(false);
    } else {
        lemma_lookup_none(s, k2);
        lemma_lookup_none(t, k2);
    }
}

/// Storing under a new key adds one entry; storing under a present key adds none.
pub proof fn law_insert_len(s: Seq<(Value, Value)>, k: Value, v: Value)
    ensures
        map_insert(s, k, v).len() == s.len() + (if map_lookup(s, k) is Some { 0int } else { 1int }),
{
    lemma_first_not_less_props(s, k);
}

impl View for ValueMap {
    type V = Seq<(Value, Value)>;

    closed spec fn view(&self) -> Seq<(Value, Value)> {
        (*self.data)@
    }
}

impl ValueMap {
    #[verifier::type_invariant]
    spec fn well_formed(&self) -> bool {
        sorted_keys((*self.data)@)
    }

    /// The map type the map was made with.
    pub closed spec fn map_type(&self) -> MapType {
        *self.ty
    }

    /// The reflected type of the map.
    pub closed spec fn reflected_type(&self) -> Type {
        Type::Mapping(self.ty)
    }
}

impl ValueMap {
    /// An empty map of the map type `ty`.
    pub fn new(ty: &MapType) -> (r: Self)
        ensures
            r@ == Seq::<(Value, Value)>::empty(),
            r.map_type() == *ty,
    {
        let data: Vec<(Value, Value)> = Vec::new();
        ValueMap { ty: Arc::new(ty.clone()), data: Arc::new(data) }
    }

    /// The reflected type: the map type the map was made with.
    pub fn to_type(&self) -> (r: Type)
        ensures
            r == self.reflected_type(),
            r matches Type::Mapping(t) && *t == self.map_type(),
    {
        Type::Mapping(self.ty.clone())
    }

    /// The entries in key order.
    pub fn iter(&self) -> (r: Vec<(Value, Value)>)
        ensures
            r@ == self@,
            sorted_keys(r@),
    {
        proof {
            use_type_invariant(self);
        }
        let d: &Vec<(Value, Value)> = &*self.data;
        let mut out: Vec<(Value, Value)> = Vec::new();
        let mut i: usize = 0;
        while i < d.len()
            invariant
                i <= d@.len(),
                out@ == d@.subrange(0, i as int),
            decreases d@.len() - i,
        {
            out.push((d[i].0.clone(), d[i].1.clone()));
            assert(out@ =~= d@.subrange(0, i + 1));
            i = i + 1;
        }
        assert(out@ =~= d@);
        out
    }

    /// The keys in order.
    pub fn keys(&self) -> (r: Vec<Value>)
        ensures
            r@ == self@.map_values(|e: (Value, Value)| e.0),
            forall|i: int, j: int| 0 <= i < j < r@.len() ==> #[trigger] key_order(r@[i], r@[j]) < 0,
    {
        proof {
            use_type_invariant(self);
        }
        let d: &Vec<(Value, Value)> = &*self.data;
        let mut out: Vec<Value> = Vec::new();
        let mut i: usize = 0;
        while i < d.len()
            invariant
                i <= d@.len(),
                out@ == d@.subrange(0, i as int).map_values(|e: (Value, Value)| e.0),
            decreases d@.len() - i,
        {
            out.push(d[i].0.clone());
            assert(out@ =~= d@.subrange(0, i + 1).map_values(|e: (Value, Value)| e.0));
            i = i + 1;
        }
        assert(d@.subrange(0, d@.len() as int) =~= d@);
        out
    }

    /// The values in key order.
    pub fn values(&self) -> (r: Vec<Value>)
        ensures
            r@ == self@.map_values(|e: (Value, Value)| e.1),
    {
        let d: &Vec<(Value, Value)> = &*self.data;
        let mut out: Vec<Value> = Vec::new();
        let mut i: usize = 0;
        while i < d.len()
            invariant
                i <= d@.len(),
                out@ == d@.subrange(0, i as int).map_values(|e: (Value, Value)| e.1),
            decreases d@.len() - i,
        {
            out.push(d[i].1.clone());
            assert(out@ =~= d@.subrange(0, i + 1).map_values(|e: (Value, Value)| e.1));
            i = i + 1;
        }
        assert(d@.subrange(0, d@.len() as int) =~= d@);
        out
    }

    /// The number of entries.
    pub fn len(&self) -> (r: usize)
        ensures
            r == self@.len(),
    {
        self.data.len()
    }

    /// Whether there are no entries.
    pub fn is_empty(&self) -> (r: bool)
        ensures
            r == (self@.len() == 0),
    {
        self.data.len() == 0
    }

    /// The entries in key order, borrowed.
    pub fn data(&self) -> (r: &Vec<(Value, Value)>)
        ensures
            r@ == self@,
            sorted_keys(r@),
    {
        proof {
            use_type_invariant(self);
        }
        &*self.data
    }

    /// The index of the first entry whose key is not below `key`.
    fn locate(&self, key: &Value) -> (r: usize)
        ensures
            r as nat == first_not_less(self@, *key),
            r <= self@.len(),
    {
        let d: &Vec<(Value, Value)> = &*self.data;
        let n = d.len();
        let mut i: usize = 0;
        while i < n
            invariant
                n == d@.len(),
                d@ == self@,
                i <= n,
                forall|j: int| 0 <= j < i ==> #[trigger] key_order(d@[j].0, *key) < 0,
            decreases n - i,
        {
            let c = compare_keys(&d[i].0, key);
            if c >= 0 {
                proof {
                    lemma_first_not_less(d@, *key, i as int);
                }
                return i;
            }
            i = i + 1;
        }
        proof {
            lemma_first_not_less(d@, *key, n as int);
        }
        n
    }

    /// Whether a key alike to `key` is present.
    pub fn has(&self, key: &Value) -> (r: bool)
        ensures
            r == (map_lookup(self@, *key) is Some),
    {
        self.get(key).is_some()
    }

    /// The value stored under `key`.
    pub fn get(&self, key: &Value) -> (r: Option<&Value>)
        ensures
            match r {
                Some(v) => map_lookup(self@, *key) == Some(*v),
                None => map_lookup(self@, *key) is None,
            },
    {
        let p = self.locate(key);
        let d: &Vec<(Value, Value)> = &*self.data;
        if p < d.len() && compare_keys(&d[p].0, key) == 0 {
            Some(&d[p].1)
        } else {
            None
        }
    }

    /// Stores `value` under `key`. An entry with a key alike to `key` keeps its key
    /// and takes the value; else a new entry goes where its key belongs.
    pub fn insert(&mut self, key: Value, value: Value)
        ensures
            final(self)@ == map_insert(old(self)@, key, value),
            final(self).map_type() == old(self).map_type(),
            sorted_keys(final(self)@),
    {
        proof {
            use_type_invariant(&*self);
        }
        let ghost k = key;
        let ghost v = value;
        let p = self.locate(&key);
        let d: &Vec<(Value, Value)> = &*self.data;
        let ghost s = d@;
        let n = d.len();
        let found = p < n && compare_keys(&d[p].0, &key) == 0;
        let mut out: Vec<(Value, Value)> = Vec::new();
        let mut i: usize = 0;
        while i < p
            invariant
                p <= n,
                n == s.len(),
                s == d@,
                i <= p,
                out@ == s.subrange(0, i as int),
            decreases p - i,
        {
            out.push((d[i].0.clone(), d[i].1.clone()));
            assert(out@ =~= s.subrange(0, i + 1));
            i = i + 1;
        }
        if found {
            out.push((d[p].0.clone(), value));
            i = p + 1;
        } else {
            out.push((key, value));
        }
        let ghost head = out@;
        let ghost start = i as int;
        while i < n
            invariant
                n == s.len(),
                s == d@,
                0 <= start <= i <= n,
                out@ == head + s.subrange(start, i as int),
            decreases n - i,
        {
            out.push((d[i].0.clone(), d[i].1.clone()));
            assert(out@ =~= head + s.subrange(start, i + 1));
            i = i + 1;
        }
        proof {
            if found {
                assert(out@ =~= s.update(p as int, (s[p as int].0, v)));
            } else {
                assert(out@ =~= s.insert(p as int, (k, v)));
            }
            lemma_insert_sorted(s, k, v);
        }
        self.data = Arc::new(out);
    }
}

/// Equality of values: booleans, numbers, strings and maps by content, null with null,
/// undefined with undefined; a dynamic value equals nothing.
pub closed spec fn value_eq(a: Value, b: Value) -> bool
    decreases a, 1nat,
{
    match a {
        Value::Bool(x) => b matches Value::Bool(y) && x == y,
        Value::Number(x) => b matches Value::Number(y) && number_eq(x, y),
        Value::Str(x) => b matches Value::Str(y) && x@ == y@,
        Value::Mapping(x) => b matches Value::Mapping(y) && entries_eq((*x.data)@, (*y.data)@),
        Value::Dynamic(_) => false,
        Value::Null => b is Null,
        Value::Undefined => b is Undefined,
    }
}

/// Entries equal pairwise, keys and values by `value_eq`.
pub closed spec fn entries_eq(s: Seq<(Value, Value)>, t: Seq<(Value, Value)>) -> bool
    decreases s, 0nat,
{
    if s.len() == 0 {
        t.len() == 0
    } else {
        &&& t.len() > 0
        &&& value_eq(s[0].0, t[0].0)
        &&& value_eq(s[0].1, t[0].1)
        &&& entries_eq(s.subrange(1, s.len() as int), t.subrange(1, t.len() as int))
    }
}

/// Two maps are equal when their entries are, in order.
pub open spec fn maps_eq(a: ValueMap, b: ValueMap) -> bool {
    entries_eq(a@, b@)
}

closed spec fn pair_eq(s: Seq<(Value, Value)>, t: Seq<(Value, Value)>, i: int) -> bool {
    value_eq(s[i].0, t[i].0) && value_eq(s[i].1, t[i].1)
}

proof fn lemma_entries_eq(s: Seq<(Value, Value)>, t: Seq<(Value, Value)>)
    ensures
        entries_eq(s, t) <==> (s.len() == t.len() && forall|i: int| 0 <= i < s.len() ==> #[trigger] pair_eq(s, t, i)),
    decreases s.len(),
{
    if s.len() > 0 && t.len() > 0 {
        let s1 = s.subrange(1, s.len() as int);
        let t1 = t.subrange(1, t.len() as int);
        lemma_entries_eq(s1, t1);
        if s.len() == t.len() && forall|i: int| 0 <= i < s.len() ==> #[trigger] pair_eq(s, t, i) {
            assert forall|i: int| 0 <= i < s1.len() implies #[trigger] pair_eq(s1, t1, i) by {
                assert(s1[i] == s[i + 1] && t1[i] == t[i + 1]);
                assert(pair_eq(s, t, i + 1));
            }
            assert(pair_eq(s, t, 0));
        }
        if entries_eq(s, t) {
            assert forall|i: int| 0 <= i < s.len() implies #[trigger] pair_eq(s, t, i) by {
                if i > 0 {
                    assert(s1[i - 1] == s[i] && t1[i - 1] == t[i]);
                    assert(pair_eq(s1, t1, i - 1));
                }
            }
        }
    }
}

/// Whether a value equals itself: it holds no dynamic value and no NaN, at any depth.
pub open spec fn self_equal(v: Value) -> bool
    decreases v, 1nat,
{
    match v {
        Value::Number(Number::Float(f)) => !float_nan(f),
        Value::Dynamic(_) => false,
        Value::Mapping(m) => {
            proof {
                lemma_view_decreases(v);
            }
            entries_self_equal(m@)
        },
        _ => true,
    }
}

/// Every key and value of the entries equals itself.
pub open spec fn entries_self_equal(s: Seq<(Value, Value)>) -> bool
    decreases s, 0nat,
{
    if s.len() == 0 {
        true
    } else {
        entries_self_equal(s.subrange(0, s.len() - 1)) && self_equal(s[s.len() - 1].0) && self_equal(
            s[s.len() - 1].1,
        )
    }
}

proof fn lemma_entries_self_equal(s: Seq<(Value, Value)>, i: int)
    requires
        entries_self_equal(s),
        0 <= i < s.len(),
    ensures
        self_equal(s[i].0),
        self_equal(s[i].1),
    decreases s.len(),
{
    if i < s.len() - 1 {
        let s1 = s.subrange(0, s.len() - 1);
        lemma_entries_self_equal(s1, i);
        assert(s1[i] == s[i]);
    }
}

/// A value that holds no dynamic value and no NaN equals itself; a dynamic value
/// equals nothing, itself included.
pub proof fn law_value_eq_reflexive(v: Value)
    ensures
        self_equal(v) ==> value_eq(v, v),
        v is Dynamic ==> !value_eq(v, v),
    decreases v,
{
    if let Value::Mapping(m) = v {
        if self_equal(v) {
            let d = (*m.data)@;
            assert forall|i: int| 0 <= i < d.len() implies #[trigger] pair_eq(d, d, i) by {
                lemma_entries_self_equal(m@, i);
                lemma_entries_decrease(v, i);
                law_value_eq_reflexive(d[i].0);
                law_value_eq_reflexive(d[i].1);
            }
            lemma_entries_eq(d, d);
        }
    }
}

/// Whether a key is told apart from every other key by equality alone: it is no map,
/// no dynamic value and no NaN.
pub open spec fn plain_key(v: Value) -> bool {
    match v {
        Value::Mapping(_) | Value::Dynamic(_) => false,
        Value::Number(Number::Float(f)) => !float_nan(f),
        _ => true,
    }
}

proof fn lemma_int_order_zero(x: Int, y: Int)
    ensures
        (int_rank(x) == int_rank(y) && int_value(x) == int_value(y)) <==> x == y,
{
}

/// Equal values are alike as map keys; for a key that is no map, no dynamic value and
/// no NaN, being alike to another key is being equal to it.
pub proof fn law_equal_values_alike(a: Value, b: Value)
    ensures
        value_eq(a, b) ==> key_order(a, b) == 0,
        plain_key(a) ==> (key_order(a, b) == 0 <==> value_eq(a, b)),
{
    lemma_key_order(a, a, a);
    if let (Value::Str(x), Value::Str(y)) = (a, b) {
        lemma_text_order_zero(x@, y@);
    }
    if let (Value::Number(x), Value::Number(y)) = (a, b) {
        lemma_number_key_order(x, y, y);
        lemma_number_key_order(x, x, x);
        if let (Number::Int(i), Number::Int(j)) = (x, y) {
            lemma_int_order_zero(i, j);
        }
    }
}

/// Storing `v` under `k`: a lookup of a key equal to `k` finds `v`, and a lookup of any
/// key not equal to `k` finds what it found before, for every key that is no map, no
/// dynamic value and no NaN.
pub proof fn law_insert_by_equality(s: Seq<(Value, Value)>, k: Value, v: Value, k2: Value)
    requires
        sorted_keys(s),
        plain_key(k2),
    ensures
        value_eq(k2, k) ==> map_lookup(map_insert(s, k, v), k2) == Some(v),
        !value_eq(k2, k) ==> map_lookup(map_insert(s, k, v), k2) == map_lookup(s, k2),
{
    law_equal_values_alike(k2, k);
    if value_eq(k2, k) {
        let t = map_insert(s, k, v);
        lemma_insert_sorted(s, k, v);
        law_lookup_after_insert(s, k, v);
        let p = first_not_less(t, k) as int;
        lemma_key_order(t[p].0, k, k2);
        lemma_key_order(k2, k, k);
        lemma_lookup_at(t, k2, p);
    } else {
        law_lookup_other_after_insert(s, k, v, k2);
    }
}

/// Equality of values is symmetric.
pub proof fn law_value_eq_symmetric(a: Value, b: Value)
    ensures
        value_eq(a, b) == value_eq(b, a),
    decreases a,
{
    if let (Value::Mapping(x), Value::Mapping(y)) = (a, b) {
        let s = (*x.data)@;
        let t = (*y.data)@;
        lemma_entries_eq(s, t);
        lemma_entries_eq(t, s);
        if s.len() == t.len() {
            assert forall|i: int| 0 <= i < s.len() implies #[trigger] pair_eq(s, t, i) == pair_eq(t, s, i) by {
                lemma_entries_decrease(a, i);
                law_value_eq_symmetric(s[i].0, t[i].0);
                law_value_eq_symmetric(s[i].1, t[i].1);
            }
            if value_eq(a, b) {
                assert forall|i: int| 0 <= i < t.len() implies #[trigger] pair_eq(t, s, i) by {
                    assert(pair_eq(s, t, i) == pair_eq(t, s, i));
                }
            }
            if value_eq(b, a) {
                assert forall|i: int| 0 <= i < s.len() implies #[trigger] pair_eq(s, t, i) by {
                    assert(pair_eq(s, t, i) == pair_eq(t, s, i));
                }
            }
        }
    }
}

/// Equality of values, as `value_eq` states it.
pub fn values_equal(a: &Value, b: &Value) -> (r: bool)
    ensures
        r == value_eq(*a, *b),
    decreases *a,
{
    match (a, b) {
        (Value::Bool(x), Value::Bool(y)) => *x == *y,
        (Value::Number(x), Value::Number(y)) => numbers_equal(x, y),
        (Value::Str(x), Value::Str(y)) => text_eq(x.as_str(), y.as_str()),
        (Value::Mapping(x), Value::Mapping(y)) => {
            let dx: &Vec<(Value, Value)> = &*x.data;
            let dy: &Vec<(Value, Value)> = &*y.data;
            proof {
                lemma_entries_eq(dx@, dy@);
            }
            if dx.len() != dy.len() {
                return false;
            }
            let mut i: usize = 0;
            while i < dx.len()
                invariant
                    dx@.len() == dy@.len(),
                    i <= dx@.len(),
                    *a == Value::Mapping(*x),
                    *b == Value::Mapping(*y),
                    dx@ == (*x.data)@,
                    dy@ == (*y.data)@,
                    entries_eq(dx@, dy@) <==> (dx@.len() == dy@.len() && forall|j: int|
                        0 <= j < dx@.len() ==> #[trigger] pair_eq(dx@, dy@, j)),
                    forall|j: int| 0 <= j < i ==> #[trigger] pair_eq(dx@, dy@, j),
                decreases dx@.len() - i,
            {
                proof {
                    let ghost m: ValueMap = *x;
                    let ghost e = dx@[i as int];
                    assert(decreases_to!(*a => (*a)->Mapping_0));
                    assert(decreases_to!(m => m.data));
                    assert(decreases_to!(*m.data => (*m.data)@));
                    assert(decreases_to!((*m.data)@ => e));
                    assert(decreases_to!(e => e.0));
                    assert(decreases_to!(e => e.1));
                    assert(decreases_to!(*a => dx@[i as int].0));
                    assert(decreases_to!(*a => dx@[i as int].1));
                }
                let ek = values_equal(&dx[i].0, &dy[i].0);
                if !ek {
                    assert(!pair_eq(dx@, dy@, i as int));
                    return false;
                }
                let ev = values_equal(&dx[i].1, &dy[i].1);
                if !ev {
                    assert(!pair_eq(dx@, dy@, i as int));
                    return false;
                }
                assert(pair_eq(dx@, dy@, i as int));
                i = i + 1;
            }
            true
        },
        (Value::Null, Value::Null) => true,
        (Value::Undefined, Value::Undefined) => true,
        _ => false,
    }
}

impl PartialEq for Value {
    fn eq(&self, other: &Self) -> (r: bool) {
        values_equal(self, other)
    }
}

impl vstd::std_specs::cmp::PartialEqSpecImpl for Value {
    open spec fn obeys_eq_spec() -> bool {
        true
    }

    open spec fn eq_spec(&self, other: &Value) -> bool {
        value_eq(*self, *other)
    }
}

impl PartialEq for ValueMap {
    fn eq(&self, other: &Self) -> (r: bool) {
        let a = Value::Mapping(self.clone());
        let b = Value::Mapping(other.clone());
        values_equal(&a, &b)
    }
}

impl vstd::std_specs::cmp::PartialEqSpecImpl for ValueMap {
    open spec fn obeys_eq_spec() -> bool {
        true
    }

    open spec fn eq_spec(&self, other: &ValueMap) -> bool {
        maps_eq(*self, *other)
    }
}

/// `'<type>' is not an object`.
pub open spec fn not_object_message(t: Type) -> Seq<char> {
    seq!['\''] + type_text(t) + "' is not an object"@
}

/// `'<type>' is not a sequence`.
pub open spec fn not_sequence_message(t: Type) -> Seq<char> {
    seq!['\''] + type_text(t) + "' is not a sequence"@
}

/// `index <i> out of bounds`.
pub open spec fn out_of_bounds_message(i: nat) -> Seq<char> {
    "index "@ + decimal_text(i) + " out of bounds"@
}

fn not_object_string(t: &Type) -> (r: String)
    ensures
        r@ == not_object_message(*t),
{
    let id = t.id();
    proof {
        reveal_strlit("'");
    }
    assert("'"@ =~= seq!['\'']);
    concat3("'", id.as_str(), "' is not an object")
}

fn not_sequence_string(t: &Type) -> (r: String)
    ensures
        r@ == not_sequence_message(*t),
{
    let id = t.id();
    proof {
        reveal_strlit("'");
    }
    assert("'"@ =~= seq!['\'']);
    concat3("'", id.as_str(), "' is not a sequence")
}

fn out_of_bounds_string(i: usize) -> (r: String)
    ensures
        r@ == out_of_bounds_message(i as nat),
{
    let digits = decimal_string(i as u128);
    concat3("index ", digits.as_str(), " out of bounds")
}

/// The length of a value: entries of a map, UTF-8 bytes of a string, elements of a
/// dynamic sequence; 0 for anything else.
pub open spec fn value_len(v: Value) -> nat {
    match v {
        Value::Mapping(m) => m@.len(),
        Value::Str(s) => (vstd::utf8::encode_utf8(s@).len() as usize) as nat,
        Value::Dynamic(d) => dynamic_len(d),
        _ => 0,
    }
}

/// Whether a value counts as true: `true`, a nonzero number (NaN counts), a nonempty
/// string, map or sequence.
pub open spec fn value_truthy(v: Value) -> bool {
    match v {
        Value::Bool(b) => b,
        Value::Number(n) => match n {
            Number::Int(i) => int_value(i) != 0,
            Number::Float(f) => float_nonzero(f),
        },
        Value::Str(s) => s@.len() > 0,
        Value::Mapping(m) => m@.len() > 0,
        Value::Dynamic(d) => dynamic_len(d) > 0,
        Value::Null => false,
        Value::Undefined => false,
    }
}

/// The reflected type of a value.
pub open spec fn value_type(v: Value) -> Type {
    match v {
        Value::Bool(_) => Type::Bool(BoolType),
        Value::Number(n) => number_type(n),
        Value::Str(_) => Type::Str(StrType),
        Value::Mapping(m) => m.reflected_type(),
        Value::Dynamic(d) => dynamic_type(d),
        Value::Null => Type::Void,
        Value::Undefined => Type::Void,
    }
}

impl Value {
    /// The reflected type of the value; `void` for null and undefined.
    pub fn to_type(&self) -> (r: Type)
        ensures
            r == value_type(*self),
    {
        match self {
            Value::Bool(_) => Type::Bool(BoolType),
            Value::Number(v) => v.to_type(),
            Value::Str(v) => v.to_type(),
            Value::Mapping(v) => v.to_type(),
            Value::Dynamic(v) => v.to_type(),
            Value::Null => Type::Void,
            Value::Undefined => Type::Void,
        }
    }
}

impl Clone for ValueMap {
    fn clone(&self) -> (r: Self)
        ensures
            r == *self,
    {
        proof {
            use_type_invariant(self);
        }
        ValueMap { ty: self.ty.clone(), data: self.data.clone() }
    }
}

impl Clone for Value {
    fn clone(&self) -> (r: Self)
        ensures
            r == *self,
    {
        match self {
            Value::Bool(v) => Value::Bool(*v),
            Value::Number(v) => Value::Number(*v),
            Value::Str(v) => Value::Str(v.clone()),
            Value::Mapping(v) => Value::Mapping(v.clone()),
            Value::Dynamic(v) => Value::Dynamic(v.clone()),
            Value::Null => Value::Null,
            Value::Undefined => Value::Undefined,
        }
    }
}

/// A borrowed view of a value.
#[derive(Clone, Copy)]
pub enum ValueRef<'a> {
    Bool(bool),
    Number(Number),
    Str(&'a str),
    Mapping(&'a ValueMap),
    Dynamic(DynamicRef<'a>),
    Null,
    Undefined,
}

/// `r` borrows `v`.
pub open spec fn borrows(v: Value, r: ValueRef) -> bool {
    match v {
        Value::Bool(b) => r == ValueRef::Bool(b),
        Value::Number(n) => r == ValueRef::Number(n),
        Value::Str(s) => r is Str && r->Str_0@ == s@,
        Value::Mapping(m) => r is Mapping && *r->Mapping_0 == m,
        Value::Dynamic(_) => r is Dynamic && r->Dynamic_0 is Sequence && r->Dynamic_0->Sequence_0 == sequence_ref(
            &v->Dynamic_0->Sequence_0,
        ),
        Value::Null => r is Null,
        Value::Undefined => r is Undefined,
    }
}

/// The value a borrowed value is read as: strings and maps copied, dynamic values
/// materialized.
pub open spec fn owned_from(r: ValueRef, v: Value) -> bool {
    match r {
        ValueRef::Bool(b) => v == Value::Bool(b),
        ValueRef::Number(n) => v == Value::Number(n),
        ValueRef::Str(s) => v is Str && v->Str_0@ == s@,
        ValueRef::Mapping(m) => v == Value::Mapping(*m),
        ValueRef::Dynamic(d) => materialized(d, v),
        ValueRef::Null => v is Null,
        ValueRef::Undefined => v is Undefined,
    }
}

/// The reflected type of a borrowed value.
pub open spec fn value_ref_type(r: ValueRef) -> Type {
    match r {
        ValueRef::Bool(_) => Type::Bool(BoolType),
        ValueRef::Number(n) => number_type(n),
        ValueRef::Str(_) => Type::Str(StrType),
        ValueRef::Mapping(m) => m.reflected_type(),
        ValueRef::Dynamic(d) => dynamic_ref_type(d),
        ValueRef::Null => Type::Void,
        ValueRef::Undefined => Type::Void,
    }
}

/// The length of a borrowed value, as `value_len` reads it.
pub open spec fn value_ref_len(r: ValueRef) -> nat {
    match r {
        ValueRef::Mapping(m) => m@.len(),
        ValueRef::Str(s) => (vstd::utf8::encode_utf8(s@).len() as usize) as nat,
        ValueRef::Dynamic(d) => dynamic_ref_len(d),
        _ => 0,
    }
}

/// Whether a borrowed value counts as true; a dynamic value that is not a sequence does.
pub open spec fn value_ref_truthy(r: ValueRef) -> bool {
    match r {
        ValueRef::Bool(b) => b,
        ValueRef::Number(n) => match n {
            Number::Int(i) => int_value(i) != 0,
            Number::Float(f) => float_nonzero(f),
        },
        ValueRef::Str(s) => s@.len() > 0,
        ValueRef::Mapping(m) => m@.len() > 0,
        ValueRef::Dynamic(d) => d is Sequence ==> dynamic_ref_len(d) > 0,
        ValueRef::Null => false,
        ValueRef::Undefined => false,
    }
}

/// The number a value holds, if it is a number.
pub open spec fn number_of(v: Value) -> Option<Number> {
    match v {
        Value::Number(n) => Some(n),
        _ => None,
    }
}

/// The number a borrowed value holds, if it is a number.
pub open spec fn ref_number_of(r: ValueRef) -> Option<Number> {
    match r {
        ValueRef::Number(n) => Some(n),
        _ => None,
    }
}

fn number_is_truthy(n: &Number) -> (r: bool)
    ensures
        r == match *n {
            Number::Int(i) => int_value(i) != 0,
            Number::Float(f) => float_nonzero(f),
        },
{
    n.is_nonzero()
}

impl Value {

    /// Whether the value is an `i8`.
    pub fn is_i8(&self) -> (r: bool)
        ensures
            r == (*self matches Value::Number(Number::Int(Int::I8(_)))),
    {
        matches!(self, Value::Number(Number::Int(Int::I8(_))))
    }

    /// Whether the value is an `i16`.
    pub fn is_i16(&self) -> (r: bool)
        ensures
            r == (*self matches Value::Number(Number::Int(Int::I16(_)))),
    {
        matches!(self, Value::Number(Number::Int(Int::I16(_))))
    }

    /// Whether the value is an `i32`.
    pub fn is_i32(&self) -> (r: bool)
        ensures
            r == (*self matches Value::Number(Number::Int(Int::I32(_)))),
    {
        matches!(self, Value::Number(Number::Int(Int::I32(_))))
    }

    /// Whether the value is an `i64`.
    pub fn is_i64(&self) -> (r: bool)
        ensures
            r == (*self matches Value::Number(Number::Int(Int::I64(_)))),
    {
        matches!(self, Value::Number(Number::Int(Int::I64(_))))
    }

    /// Whether the value is an `u8`.
    pub fn is_u8(&self) -> (r: bool)
        ensures
            r == (*self matches Value::Number(Number::Int(Int::U8(_)))),
    {
        matches!(self, Value::Number(Number::Int(Int::U8(_))))
    }

    /// Whether the value is an `u16`.
    pub fn is_u16(&self) -> (r: bool)
        ensures
            r == (*self matches Value::Number(Number::Int(Int::U16(_)))),
    {
        matches!(self, Value::Number(Number::Int(Int::U16(_))))
    }

    /// Whether the value is an `u32`.
    pub fn is_u32(&self) -> (r: bool)
        ensures
            r == (*self matches Value::Number(Number::Int(Int::U32(_)))),
    {
        matches!(self, Value::Number(Number::Int(Int::U32(_))))
    }

    /// Whether the value is an `u64`.
    pub fn is_u64(&self) -> (r: bool)
        ensures
            r == (*self matches Value::Number(Number::Int(Int::U64(_)))),
    {
        matches!(self, Value::Number(Number::Int(Int::U64(_))))
    }

    /// The value borrowed.
    pub fn as_ref(&self) -> (r: ValueRef<'_>)
        ensures
            borrows(*self, r),
    {
        match self {
            Value::Bool(v) => ValueRef::Bool(*v),
            Value::Number(v) => ValueRef::Number(*v),
            Value::Str(v) => ValueRef::Str(v.as_str()),
            Value::Mapping(v) => ValueRef::Mapping(v),
            Value::Dynamic(v) => ValueRef::Dynamic(v.as_ref()),
            Value::Null => ValueRef::Null,
            Value::Undefined => ValueRef::Undefined,
        }
    }

    /// Whether the value counts as true.
    pub fn is_truthy(&self) -> (r: bool)
        ensures
            r == value_truthy(*self),
    {
        match self {
            Value::Bool(v) => *v,
            Value::Number(v) => number_is_truthy(v),
            Value::Str(v) => !v.is_empty(),
            Value::Mapping(v) => !v.is_empty(),
            Value::Dynamic(v) => !v.is_empty(),
            Value::Null => false,
            Value::Undefined => false,
        }
    }

    /// The field `name` of an object. An owned value is never an object (objects are
    /// held by reference), so this names the value's type in an error.
    pub fn field(&self, name: &str) -> (r: Result<Value, String>)
        ensures
            r matches Err(m) && m@ == not_object_message(value_type(*self)),
    {
        Err(not_object_string(&self.to_type()))
    }

    /// The field `name` of an object, borrowed. An owned value is never an object, so
    /// this names the value's type in an error.
    pub fn field_by_ref(&self, name: &str) -> (r: Result<ValueRef<'_>, String>)
        ensures
            r matches Err(m) && m@ == not_object_message(value_type(*self)),
    {
        Err(not_object_string(&self.to_type()))
    }

    /// The element `i` of a sequence, borrowed.
    pub fn index_by_ref(&self, i: usize) -> (r: Result<ValueRef<'_>, String>)
        ensures
            match *self {
                Value::Dynamic(Dynamic::Sequence(s)) => if i < s@.len() {
                    r matches Ok(b) && borrows(s@[i as int], b)
                } else {
                    r matches Err(m) && m@ == out_of_bounds_message(i as nat)
                },
                _ => r matches Err(m) && m@ == not_sequence_message(value_type(*self)),
            },
    {
        match self {
            Value::Dynamic(Dynamic::Sequence(s)) => {
                if i >= s.len() {
                    return Err(out_of_bounds_string(i));
                }
                Ok(s.element(i).as_ref())
            },
            _ => Err(not_sequence_string(&self.to_type())),
        }
    }

    /// The element `i` of a sequence.
    pub fn index(&self, i: usize) -> (r: Result<Value, String>)
        ensures
            match *self {
                Value::Dynamic(Dynamic::Sequence(s)) => if i < s@.len() {
                    r == Ok::<Value, String>(s@[i as int])
                } else {
                    r matches Err(m) && m@ == out_of_bounds_message(i as nat)
                },
                _ => r matches Err(m) && m@ == not_sequence_message(value_type(*self)),
            },
    {
        match self {
            Value::Dynamic(Dynamic::Sequence(s)) => {
                if i >= s.len() {
                    return Err(out_of_bounds_string(i));
                }
                Ok(s.index(i))
            },
            _ => Err(not_sequence_string(&self.to_type())),
        }
    }

    /// Calls the method `name` of an object; an owned value is never one.
    pub fn call(&self, name: &str, args: &[Value]) -> (r: Result<Value, String>)
        ensures
            r matches Err(m) && m@ == not_object_message(value_type(*self)),
    {
        Err(not_object_string(&self.to_type()))
    }

    /// The length: entries of a map, bytes of a string, elements of a sequence; else 0.
    pub fn len(&self) -> (r: usize)
        ensures
            r as nat == value_len(*self),
    {
        match self {
            Value::Mapping(v) => v.len(),
            Value::Str(v) => v.len(),
            Value::Dynamic(v) => v.len(),
            _ => 0,
        }
    }

    /// Whether `len` is 0.
    pub fn is_empty(&self) -> (r: bool)
        ensures
            r == (value_len(*self) == 0),
    {
        self.len() == 0
    }

    pub fn is_bool(&self) -> (r: bool)
        ensures
            r == (*self is Bool),
    {
        matches!(self, Value::Bool(_))
    }

    pub fn is_number(&self) -> (r: bool)
        ensures
            r == (*self is Number),
    {
        matches!(self, Value::Number(_))
    }

    pub fn is_str(&self) -> (r: bool)
        ensures
            r == (*self is Str),
    {
        matches!(self, Value::Str(_))
    }

    pub fn is_map(&self) -> (r: bool)
        ensures
            r == (*self is Mapping),
    {
        matches!(self, Value::Mapping(_))
    }

    pub fn is_dynamic(&self) -> (r: bool)
        ensures
            r == (*self is Dynamic),
    {
        matches!(self, Value::Dynamic(_))
    }

    pub fn is_null(&self) -> (r: bool)
        ensures
            r == (*self is Null),
    {
        matches!(self, Value::Null)
    }

    pub fn is_undefined(&self) -> (r: bool)
        ensures
            r == (*self is Undefined),
    {
        matches!(self, Value::Undefined)
    }

    pub fn as_bool(&self) -> (r: Option<&bool>)
        ensures
            *self is Bool ==> r == Some(&self->Bool_0),
            !(*self is Bool) ==> r is None,
    {
        match self {
            Value::Bool(v) => Some(v),
            _ => None,
        }
    }

    pub fn as_number(&self) -> (r: Option<&Number>)
        ensures
            *self is Number ==> r == Some(&self->Number_0),
            !(*self is Number) ==> r is None,
    {
        match self {
            Value::Number(v) => Some(v),
            _ => None,
        }
    }

    pub fn as_str(&self) -> (r: Option<&Str>)
        ensures
            *self is Str ==> r == Some(&self->Str_0),
            !(*self is Str) ==> r is None,
    {
        match self {
            Value::Str(v) => Some(v),
            _ => None,
        }
    }

    pub fn as_dynamic(&self) -> (r: Option<&Dynamic>)
        ensures
            *self is Dynamic ==> r == Some(&self->Dynamic_0),
            !(*self is Dynamic) ==> r is None,
    {
        match self {
            Value::Dynamic(v) => Some(v),
            _ => None,
        }
    }

    pub fn as_map(&self) -> (r: Option<&ValueMap>)
        ensures
            *self is Mapping ==> r == Some(&self->Mapping_0),
            !(*self is Mapping) ==> r is None,
    {
        match self {
            Value::Mapping(v) => Some(v),
            _ => None,
        }
    }

    pub fn to_bool(&self) -> (r: Option<bool>)
        ensures
            *self is Bool ==> r == Some(self->Bool_0),
            !(*self is Bool) ==> r is None,
    {
        match self {
            Value::Bool(v) => Some(*v),
            _ => None,
        }
    }

    pub fn to_number(&self) -> (r: Option<Number>)
        ensures
            r == number_of(*self),
    {
        match self {
            Value::Number(v) => Some(*v),
            _ => None,
        }
    }

    pub fn to_str(&self) -> (r: Option<Str>)
        ensures
            *self is Str ==> r == Some(self->Str_0),
            !(*self is Str) ==> r is None,
    {
        match self {
            Value::Str(v) => Some(v.clone()),
            _ => None,
        }
    }

    pub fn to_dynamic(&self) -> (r: Option<Dynamic>)
        ensures
            *self is Dynamic ==> r == Some(self->Dynamic_0),
            !(*self is Dynamic) ==> r is None,
    {
        match self {
            Value::Dynamic(v) => Some(v.clone()),
            _ => None,
        }
    }

    pub fn to_map(&self) -> (r: Option<ValueMap>)
        ensures
            *self is Mapping ==> r == Some(self->Mapping_0),
            !(*self is Mapping) ==> r is None,
    {
        match self {
            Value::Mapping(v) => Some(v.clone()),
            _ => None,
        }
    }

    /// Whether the value is `true`.
    pub fn is_true(&self) -> (r: bool)
        ensures
            r == (*self == Value::Bool(true)),
    {
        matches!(self, Value::Bool(true))
    }

    /// Whether the value is `false`.
    pub fn is_false(&self) -> (r: bool)
        ensures
            r == (*self == Value::Bool(false)),
    {
        matches!(self, Value::Bool(false))
    }

    /// The number as `i8` (integers wrap, floats saturate), if the value is a number.
    pub fn to_i8(&self) -> (r: Option<i8>)
        ensures
            r == match *self {
                Value::Number(n) => Some(number_as_i8(n)),
                _ => None,
            },
    {
        match self {
            Value::Number(n) => Some(n.to_i8()),
            _ => None,
        }
    }

    /// The number as `i16`, if the value is a number.
    pub fn to_i16(&self) -> (r: Option<i16>)
        ensures
            r == match *self {
                Value::Number(n) => Some(number_as_i16(n)),
                _ => None,
            },
    {
        match self {
            Value::Number(n) => Some(n.to_i16()),
            _ => None,
        }
    }

    /// The number as `i32`, if the value is a number.
    pub fn to_i32(&self) -> (r: Option<i32>)
        ensures
            r == match *self {
                Value::Number(n) => Some(number_as_i32(n)),
                _ => None,
            },
    {
        match self {
            Value::Number(n) => Some(n.to_i32()),
            _ => None,
        }
    }

    /// The number as `i64`, if the value is a number.
    pub fn to_i64(&self) -> (r: Option<i64>)
        ensures
            r == match *self {
                Value::Number(n) => Some(number_as_i64(n)),
                _ => None,
            },
    {
        match self {
            Value::Number(n) => Some(n.to_i64()),
            _ => None,
        }
    }

    /// The number as `u8`, if the value is a number.
    pub fn to_u8(&self) -> (r: Option<u8>)
        ensures
            r == match *self {
                Value::Number(n) => Some(number_as_u8(n)),
                _ => None,
            },
    {
        match self {
            Value::Number(n) => Some(n.to_u8()),
            _ => None,
        }
    }

    /// The number as `u16`, if the value is a number.
    pub fn to_u16(&self) -> (r: Option<u16>)
        ensures
            r == match *self {
                Value::Number(n) => Some(number_as_u16(n)),
                _ => None,
            },
    {
        match self {
            Value::Number(n) => Some(n.to_u16()),
            _ => None,
        }
    }

    /// The number as `u32`, if the value is a number.
    pub fn to_u32(&self) -> (r: Option<u32>)
        ensures
            r == match *self {
                Value::Number(n) => Some(number_as_u32(n)),
                _ => None,
            },
    {
        match self {
            Value::Number(n) => Some(n.to_u32()),
            _ => None,
        }
    }

    /// The number as `u64`, if the value is a number.
    pub fn to_u64(&self) -> (r: Option<u64>)
        ensures
            r == match *self {
                Value::Number(n) => Some(number_as_u64(n)),
                _ => None,
            },
    {
        match self {
            Value::Number(n) => Some(n.to_u64()),
            _ => None,
        }
    }
}

impl<'a> ValueRef<'a> {

    /// Whether the value is an `i8`.
    pub fn is_i8(&self) -> (r: bool)
        ensures
            r == (*self matches ValueRef::Number(Number::Int(Int::I8(_)))),
    {
        matches!(self, ValueRef::Number(Number::Int(Int::I8(_))))
    }

    /// Whether the value is an `i16`.
    pub fn is_i16(&self) -> (r: bool)
        ensures
            r == (*self matches ValueRef::Number(Number::Int(Int::I16(_)))),
    {
        matches!(self, ValueRef::Number(Number::Int(Int::I16(_))))
    }

    /// Whether the value is an `i32`.
    pub fn is_i32(&self) -> (r: bool)
        ensures
            r == (*self matches ValueRef::Number(Number::Int(Int::I32(_)))),
    {
        matches!(self, ValueRef::Number(Number::Int(Int::I32(_))))
    }

    /// Whether the value is an `i64`.
    pub fn is_i64(&self) -> (r: bool)
        ensures
            r == (*self matches ValueRef::Number(Number::Int(Int::I64(_)))),
    {
        matches!(self, ValueRef::Number(Number::Int(Int::I64(_))))
    }

    /// Whether the value is an `u8`.
    pub fn is_u8(&self) -> (r: bool)
        ensures
            r == (*self matches ValueRef::Number(Number::Int(Int::U8(_)))),
    {
        matches!(self, ValueRef::Number(Number::Int(Int::U8(_))))
    }

    /// Whether the value is an `u16`.
    pub fn is_u16(&self) -> (r: bool)
        ensures
            r == (*self matches ValueRef::Number(Number::Int(Int::U16(_)))),
    {
        matches!(self, ValueRef::Number(Number::Int(Int::U16(_))))
    }

    /// Whether the value is an `u32`.
    pub fn is_u32(&self) -> (r: bool)
        ensures
            r == (*self matches ValueRef::Number(Number::Int(Int::U32(_)))),
    {
        matches!(self, ValueRef::Number(Number::Int(Int::U32(_))))
    }

    /// Whether the value is an `u64`.
    pub fn is_u64(&self) -> (r: bool)
        ensures
            r == (*self matches ValueRef::Number(Number::Int(Int::U64(_)))),
    {
        matches!(self, ValueRef::Number(Number::Int(Int::U64(_))))
    }

    /// An owned value with the borrowed content; a dynamic value is materialized.
    pub fn to_owned(&self) -> (r: Value)
        ensures
            owned_from(*self, r),
    {
        match self {
            ValueRef::Bool(v) => Value::Bool(*v),
            ValueRef::Number(v) => Value::Number(*v),
            ValueRef::Str(v) => Value::Str(Str::new(v)),
            ValueRef::Mapping(v) => Value::Mapping((*v).clone()),
            ValueRef::Dynamic(v) => v.materialize(),
            ValueRef::Null => Value::Null,
            ValueRef::Undefined => Value::Undefined,
        }
    }

    /// The reflected type of the value.
    pub fn to_type(&self) -> (r: Type)
        ensures
            r == value_ref_type(*self),
    {
        match self {
            ValueRef::Bool(_) => Type::Bool(BoolType),
            ValueRef::Number(v) => v.to_type(),
            ValueRef::Str(_) => Type::Str(StrType),
            ValueRef::Mapping(v) => v.to_type(),
            ValueRef::Dynamic(v) => v.to_type(),
            ValueRef::Null => Type::Void,
            ValueRef::Undefined => Type::Void,
        }
    }

    /// The length: entries of a map, bytes of a string, elements of a sequence; else 0.
    pub fn len(&self) -> (r: usize)
        ensures
            r as nat == value_ref_len(*self),
    {
        match self {
            ValueRef::Mapping(v) => v.len(),
            ValueRef::Str(v) => v.len(),
            ValueRef::Dynamic(v) => v.len(),
            _ => 0,
        }
    }

    /// Whether `len` is 0.
    pub fn is_empty(&self) -> (r: bool)
        ensures
            r == (value_ref_len(*self) == 0),
    {
        self.len() == 0
    }

    /// Whether the value counts as true.
    pub fn is_truthy(&self) -> (r: bool)
        ensures
            r == value_ref_truthy(*self),
    {
        match self {
            ValueRef::Bool(v) => *v,
            ValueRef::Number(v) => number_is_truthy(v),
            ValueRef::Str(v) => !v.is_empty(),
            ValueRef::Mapping(v) => !v.is_empty(),
            ValueRef::Dynamic(v) => if v.is_sequence() { !v.is_empty() } else { true },
            ValueRef::Null => false,
            ValueRef::Undefined => false,
        }
    }

    /// The field `name` of an object; anything else is an error naming its type.
    pub fn field(&self, name: &str) -> (r: Result<Value, String>)
        ensures
            (*self is Dynamic && self->Dynamic_0 is Object) ==> (r matches Ok(v)
                && self->Dynamic_0->Object_0.field_ensures(name@, v)),
            (*self is Dynamic && self->Dynamic_0 is Bound) ==> (r matches Ok(v)
                && self->Dynamic_0->object.field_ensures(name@, v)),
            !(*self is Dynamic && (self->Dynamic_0 is Object || self->Dynamic_0 is Bound)) ==> (r matches Err(m)
                && m@ == not_object_message(value_ref_type(*self))),
    {
        match self.as_dynamic() {
            Some(d) => match d.as_object() {
                Some(o) => Ok(o.field(name)),
                None => Err(not_object_string(&self.to_type())),
            },
            None => Err(not_object_string(&self.to_type())),
        }
    }

    /// The element `i` of a sequence.
    pub fn index(&self, i: usize) -> (r: Result<Value, String>)
        ensures
            (*self is Dynamic && self->Dynamic_0 is Sequence) ==> if i < self->Dynamic_0->Sequence_0.spec_len() {
                r matches Ok(v) && self->Dynamic_0->Sequence_0.index_ensures(i as int, v)
            } else {
                r matches Err(m) && m@ == out_of_bounds_message(i as nat)
            },
            !(*self is Dynamic && self->Dynamic_0 is Sequence) ==> (r matches Err(m) && m@ == not_sequence_message(
                value_ref_type(*self),
            )),
    {
        match self.as_dynamic() {
            Some(d) => match d.as_sequence() {
                Some(q) => {
                    if i >= q.len() {
                        return Err(out_of_bounds_string(i));
                    }
                    Ok(q.index(i))
                },
                None => Err(not_sequence_string(&self.to_type())),
            },
            None => Err(not_sequence_string(&self.to_type())),
        }
    }

    /// Calls the method `name` of an object (a bound value through its object) with
    /// `args` as they are; anything else is an error naming its type.
    pub fn call(&self, name: &str, args: &[Value]) -> (r: Result<Value, String>)
        ensures
            (*self is Dynamic && self->Dynamic_0 is Object) ==> self->Dynamic_0->Object_0.method_ensures(
                name@,
                args@,
                r,
            ),
            (*self is Dynamic && self->Dynamic_0 is Bound) ==> self->Dynamic_0->object.method_ensures(name@, args@, r),
            !(*self is Dynamic && (self->Dynamic_0 is Object || self->Dynamic_0 is Bound)) ==> (r matches Err(m)
                && m@ == not_object_message(value_ref_type(*self))),
    {
        match self.as_dynamic() {
            Some(d) => match d.as_object() {
                Some(o) => o.call(name, args),
                None => Err(not_object_string(&self.to_type())),
            },
            None => Err(not_object_string(&self.to_type())),
        }
    }

    pub fn is_bool(&self) -> (r: bool)
        ensures
            r == (*self is Bool),
    {
        matches!(self, ValueRef::Bool(_))
    }

    pub fn is_number(&self) -> (r: bool)
        ensures
            r == (*self is Number),
    {
        matches!(self, ValueRef::Number(_))
    }

    pub fn is_str(&self) -> (r: bool)
        ensures
            r == (*self is Str),
    {
        matches!(self, ValueRef::Str(_))
    }

    pub fn is_map(&self) -> (r: bool)
        ensures
            r == (*self is Mapping),
    {
        matches!(self, ValueRef::Mapping(_))
    }

    pub fn is_dynamic(&self) -> (r: bool)
        ensures
            r == (*self is Dynamic),
    {
        matches!(self, ValueRef::Dynamic(_))
    }

    pub fn is_null(&self) -> (r: bool)
        ensures
            r == (*self is Null),
    {
        matches!(self, ValueRef::Null)
    }

    pub fn is_undefined(&self) -> (r: bool)
        ensures
            r == (*self is Undefined),
    {
        matches!(self, ValueRef::Undefined)
    }

    pub fn as_bool(&self) -> (r: Option<&bool>)
        ensures
            *self is Bool ==> r == Some(&self->Bool_0),
            !(*self is Bool) ==> r is None,
    {
        match self {
            ValueRef::Bool(v) => Some(v),
            _ => None,
        }
    }

    pub fn as_number(&self) -> (r: Option<&Number>)
        ensures
            *self is Number ==> r == Some(&self->Number_0),
            !(*self is Number) ==> r is None,
    {
        match self {
            ValueRef::Number(v) => Some(v),
            _ => None,
        }
    }

    pub fn as_str(&self) -> (r: Option<&'a str>)
        ensures
            *self is Str ==> r == Some(self->Str_0),
            !(*self is Str) ==> r is None,
    {
        match *self {
            ValueRef::Str(v) => Some(v),
            _ => None,
        }
    }

    pub fn as_dynamic(&self) -> (r: Option<DynamicRef<'a>>)
        ensures
            *self is Dynamic ==> r == Some(self->Dynamic_0),
            !(*self is Dynamic) ==> r is None,
    {
        match *self {
            ValueRef::Dynamic(v) => Some(v),
            _ => None,
        }
    }

    pub fn as_map(&self) -> (r: Option<&'a ValueMap>)
        ensures
            *self is Mapping ==> r == Some(self->Mapping_0),
            !(*self is Mapping) ==> r is None,
    {
        match *self {
            ValueRef::Mapping(v) => Some(v),
            _ => None,
        }
    }

    pub fn to_bool(&self) -> (r: Option<bool>)
        ensures
            *self is Bool ==> r == Some(self->Bool_0),
            !(*self is Bool) ==> r is None,
    {
        match self {
            ValueRef::Bool(v) => Some(*v),
            _ => None,
        }
    }

    pub fn to_number(&self) -> (r: Option<Number>)
        ensures
            r == ref_number_of(*self),
    {
        match self {
            ValueRef::Number(v) => Some(*v),
            _ => None,
        }
    }

    pub fn to_str(&self) -> (r: Option<String>)
        ensures
            *self is Str ==> (r matches Some(t) && t@ == self->Str_0@),
            !(*self is Str) ==> r is None,
    {
        match self {
            ValueRef::Str(v) => Some((*v).to_owned()),
            _ => None,
        }
    }

    pub fn to_dynamic(&self) -> (r: Option<DynamicRef<'a>>)
        ensures
            *self is Dynamic ==> r == Some(self->Dynamic_0),
            !(*self is Dynamic) ==> r is None,
    {
        self.as_dynamic()
    }

    pub fn to_map(&self) -> (r: Option<ValueMap>)
        ensures
            *self is Mapping ==> r == Some(*self->Mapping_0),
            !(*self is Mapping) ==> r is None,
    {
        match self {
            ValueRef::Mapping(v) => Some((*v).clone()),
            _ => None,
        }
    }

    /// Whether the value is `true`.
    pub fn is_true(&self) -> (r: bool)
        ensures
            r == (*self == ValueRef::Bool(true)),
    {
        matches!(self, ValueRef::Bool(true))
    }

    /// Whether the value is `false`.
    pub fn is_false(&self) -> (r: bool)
        ensures
            r == (*self == ValueRef::Bool(false)),
    {
        matches!(self, ValueRef::Bool(false))
    }

    /// The number as `i8` (integers wrap, floats saturate), if the value is a number.
    pub fn to_i8(&self) -> (r: Option<i8>)
        ensures
            r == match *self {
                ValueRef::Number(n) => Some(number_as_i8(n)),
                _ => None,
            },
    {
        match self {
            ValueRef::Number(n) => Some(n.to_i8()),
            _ => None,
        }
    }

    /// The number as `i16` (integers wrap, floats saturate), if the value is a number.
    pub fn to_i16(&self) -> (r: Option<i16>)
        ensures
            r == match *self {
                ValueRef::Number(n) => Some(number_as_i16(n)),
                _ => None,
            },
    {
        match self {
            ValueRef::Number(n) => Some(n.to_i16()),
            _ => None,
        }
    }

    /// The number as `i32` (integers wrap, floats saturate), if the value is a number.
    pub fn to_i32(&self) -> (r: Option<i32>)
        ensures
            r == match *self {
                ValueRef::Number(n) => Some(number_as_i32(n)),
                _ => None,
            },
    {
        match self {
            ValueRef::Number(n) => Some(n.to_i32()),
            _ => None,
        }
    }

    /// The number as `i64` (integers wrap, floats saturate), if the value is a number.
    pub fn to_i64(&self) -> (r: Option<i64>)
        ensures
            r == match *self {
                ValueRef::Number(n) => Some(number_as_i64(n)),
                _ => None,
            },
    {
        match self {
            ValueRef::Number(n) => Some(n.to_i64()),
            _ => None,
        }
    }

    /// The number as `u8` (integers wrap, floats saturate), if the value is a number.
    pub fn to_u8(&self) -> (r: Option<u8>)
        ensures
            r == match *self {
                ValueRef::Number(n) => Some(number_as_u8(n)),
                _ => None,
            },
    {
        match self {
            ValueRef::Number(n) => Some(n.to_u8()),
            _ => None,
        }
    }

    /// The number as `u16` (integers wrap, floats saturate), if the value is a number.
    pub fn to_u16(&self) -> (r: Option<u16>)
        ensures
            r == match *self {
                ValueRef::Number(n) => Some(number_as_u16(n)),
                _ => None,
            },
    {
        match self {
            ValueRef::Number(n) => Some(n.to_u16()),
            _ => None,
        }
    }

    /// The number as `u32` (integers wrap, floats saturate), if the value is a number.
    pub fn to_u32(&self) -> (r: Option<u32>)
        ensures
            r == match *self {
                ValueRef::Number(n) => Some(number_as_u32(n)),
                _ => None,
            },
    {
        match self {
            ValueRef::Number(n) => Some(n.to_u32()),
            _ => None,
        }
    }

    /// The number as `u64` (integers wrap, floats saturate), if the value is a number.
    pub fn to_u64(&self) -> (r: Option<u64>)
        ensures
            r == match *self {
                ValueRef::Number(n) => Some(number_as_u64(n)),
                _ => None,
            },
    {
        match self {
            ValueRef::Number(n) => Some(n.to_u64()),
            _ => None,
        }
    }
}

/// Whether a value holds no float, at any depth of its maps.
pub closed spec fn float_free(v: Value) -> bool
    decreases v, 1nat,
{
    match v {
        Value::Number(Number::Float(_)) => false,
        Value::Mapping(m) => entries_float_free((*m.data)@),
        _ => true,
    }
}

/// Whether no key or value of the entries holds a float.
pub closed spec fn entries_float_free(s: Seq<(Value, Value)>) -> bool
    decreases s, 0nat,
{
    if s.len() == 0 {
        true
    } else {
        entries_float_free(s.subrange(0, s.len() - 1)) && float_free(s[s.len() - 1].0) && float_free(
            s[s.len() - 1].1,
        )
    }
}

/// The text of a value: `true`/`false`, an integer in decimal, a string's content,
/// a map as `{` then a line `\t<key>: <value>` per entry then `}`, a dynamic value as
/// `<type>`, and `<null>`/`<undefined>`.
pub closed spec fn display_text(v: Value) -> Seq<char>
    decreases v, 1nat,
{
    match v {
        Value::Bool(b) => if b { seq!['t', 'r', 'u', 'e'] } else { seq!['f', 'a', 'l', 's', 'e'] },
        Value::Number(Number::Int(i)) => signed_text(int_value(i)),
        Value::Number(Number::Float(_)) => Seq::empty(),
        Value::Str(x) => x@,
        Value::Mapping(m) => seq!['{'] + entries_text((*m.data)@) + (if (*m.data)@.len() > 0 {
            seq!['\n']
        } else {
            Seq::empty()
        }) + seq!['}'],
        Value::Dynamic(d) => seq!['<'] + type_text(dynamic_type(d)) + seq!['>'],
        Value::Null => seq!['<', 'n', 'u', 'l', 'l', '>'],
        Value::Undefined => seq!['<', 'u', 'n', 'd', 'e', 'f', 'i', 'n', 'e', 'd', '>'],
    }
}

/// The lines of the entries of a map, each `\n\t<key>: <value>`.
pub closed spec fn entries_text(s: Seq<(Value, Value)>) -> Seq<char>
    decreases s, 0nat,
{
    if s.len() == 0 {
        Seq::empty()
    } else {
        entries_text(s.subrange(0, s.len() - 1)) + seq!['\n', '\t'] + display_text(s[s.len() - 1].0) + seq![':', ' ']
            + display_text(s[s.len() - 1].1)
    }
}

/// The text of a value, as `display_text` states it.
pub fn display(v: &Value) -> (r: String)
    requires
        float_free(*v),
    ensures
        r@ == display_text(*v),
    decreases *v,
{
    match v {
        Value::Bool(b) => {
            if *b {
                proof {
                    reveal_strlit("true");
                }
                assert("true"@ =~= seq!['t', 'r', 'u', 'e']);
                "true".to_owned()
            } else {
                proof {
                    reveal_strlit("false");
                }
                assert("false"@ =~= seq!['f', 'a', 'l', 's', 'e']);
                "false".to_owned()
            }
        },
        Value::Number(Number::Int(i)) => signed_string(i.to_i128()),
        Value::Number(Number::Float(_)) => String::new(),
        Value::Str(x) => x.as_str().to_owned(),
        Value::Mapping(m) => {
            let d: &Vec<(Value, Value)> = &*m.data;
            proof {
                reveal_strlit("{");
                reveal_strlit("\n\t");
                reveal_strlit(": ");
                reveal_strlit("\n");
                reveal_strlit("}");
            }
            assert("{"@ =~= seq!['{']);
            assert("\n\t"@ =~= seq!['\n', '\t']);
            assert(": "@ =~= seq![':', ' ']);
            assert("\n"@ =~= seq!['\n']);
            assert("}"@ =~= seq!['}']);
            let mut out = "{".to_owned();
            assert(d@.subrange(0, 0) =~= Seq::<(Value, Value)>::empty());
            let mut i: usize = 0;
            while i < d.len()
                invariant
                    i <= d@.len(),
                    *v == Value::Mapping(*m),
                    d@ == (*m.data)@,
                    entries_float_free(d@),
                    "\n\t"@ =~= seq!['\n', '\t'],
                    ": "@ =~= seq![':', ' '],
                    out@ == seq!['{'] + entries_text(d@.subrange(0, i as int)),
                decreases d@.len() - i,
            {
                proof {
                    lemma_entries_float_free(d@, i as int);
                    assert(decreases_to!(*v => (*v)->Mapping_0));
                    assert(decreases_to!(*v => d@[i as int].0));
                    assert(decreases_to!(*v => d@[i as int].1));
                }
                let k = display(&d[i].0);
                let x = display(&d[i].1);
                out.append("\n\t");
                out.append(k.as_str());
                out.append(": ");
                out.append(x.as_str());
                proof {
                    let t = d@.subrange(0, i + 1);
                    assert(t.subrange(0, t.len() - 1) =~= d@.subrange(0, i as int));
                    assert(out@ =~= seq!['{'] + entries_text(t));
                }
                i = i + 1;
            }
            assert(d@.subrange(0, d@.len() as int) =~= d@);
            if d.len() > 0 {
                out.append("\n");
            }
            out.append("}");
            out
        },
        Value::Dynamic(x) => {
            let id = x.to_type().id();
            proof {
                reveal_strlit("<");
                reveal_strlit(">");
            }
            concat3("<", id.as_str(), ">")
        },
        Value::Null => {
            proof {
                reveal_strlit("<null>");
            }
            "<null>".to_owned()
        },
        Value::Undefined => {
            proof {
                reveal_strlit("<undefined>");
            }
            "<undefined>".to_owned()
        },
    }
}

proof fn lemma_entries_float_free(s: Seq<(Value, Value)>, i: int)
    requires
        entries_float_free(s),
        0 <= i < s.len(),
    ensures
        float_free(s[i].0),
        float_free(s[i].1),
    decreases s.len(),
{
    if i < s.len() - 1 {
        let t = s.subrange(0, s.len() - 1);
        lemma_entries_float_free(t, i);
        assert(t[i] == s[i]);
    }
}

impl Value {
    /// The text of the value (see `display_text`).
    pub fn to_string(&self) -> (r: String)
        requires
            float_free(*self),
        ensures
            r@ == display_text(*self),
    {
        display(self)
    }

    /// Whether the value holds no float (whose text the library does not write).
    pub fn is_float_free(&self) -> (r: bool)
        ensures
            r == float_free(*self),
        decreases *self,
    {
        match self {
            Value::Number(Number::Float(_)) => false,
            Value::Mapping(m) => {
                let d: &Vec<(Value, Value)> = &*m.data;
                let mut i: usize = 0;
                assert(d@.subrange(0, 0) =~= Seq::<(Value, Value)>::empty());
                while i < d.len()
                    invariant
                        i <= d@.len(),
                        *self == Value::Mapping(*m),
                        d@ == (*m.data)@,
                        entries_float_free(d@.subrange(0, i as int)),
                    decreases d@.len() - i,
                {
                    proof {
                        assert(decreases_to!(*self => (*self)->Mapping_0));
                        assert(decreases_to!(*self => d@[i as int].0));
                        assert(decreases_to!(*self => d@[i as int].1));
                    }
                    let a = d[i].0.is_float_free();
                    let b = d[i].1.is_float_free();
                    let ghost t = d@.subrange(0, i + 1);
                    assert(t.subrange(0, t.len() - 1) =~= d@.subrange(0, i as int));
                    if !a || !b {
                        proof {
                            assert(!entries_float_free(t));
                            if entries_float_free(d@) {
                                lemma_entries_float_free_prefix(d@, i + 1);
                            }
                        }
                        return false;
                    }
                    i = i + 1;
                }
                assert(d@.subrange(0, d@.len() as int) =~= d@);
                true
            },
            _ => true,
        }
    }
}

proof fn lemma_entries_float_free_prefix(s: Seq<(Value, Value)>, n: int)
    requires
        0 <= n <= s.len(),
        entries_float_free(s),
    ensures
        entries_float_free(s.subrange(0, n)),
    decreases s.len() - n,
{
    if n < s.len() {
        lemma_entries_float_free_prefix(s, n + 1);
        let t = s.subrange(0, n + 1);
        assert(t.subrange(0, t.len() - 1) =~= s.subrange(0, n));
    } else {
        assert(s.subrange(0, n) =~= s);
    }
}

/// Borrowing a value that is not dynamic and reading the borrow back gives the value
/// again: the same value, or, for a string, a string with the same text.
pub proof fn law_borrow_round_trip(v: Value, r: ValueRef, w: Value)
    requires
        borrows(v, r),
        owned_from(r, w),
        !(v is Dynamic),
    ensures
        v is Str ==> (w is Str && w->Str_0@ == v->Str_0@),
        !(v is Str) ==> w == v,
        key_order(w, v) == 0,
        value_type(w) == value_type(v),
{
    lemma_key_order(v, v, v);
    if let Value::Str(x) = v {
        lemma_text_order_zero(w->Str_0@, x@);
    }
}

/// The keys and values of a map's entries are structurally smaller than the value
/// holding the map.
pub proof fn lemma_entries_decrease(v: Value, i: int)
    requires
        v is Mapping,
        0 <= i < v->Mapping_0@.len(),
    ensures
        decreases_to!(v => v->Mapping_0@[i].0),
        decreases_to!(v => v->Mapping_0@[i].1),
{
    let m = v->Mapping_0;
    let e = (*m.data)@[i];
    assert(decreases_to!(v => v->Mapping_0));
    assert(decreases_to!(m => m.data));
    assert(decreases_to!(*m.data => (*m.data)@));
    assert(decreases_to!((*m.data)@ => e));
    assert(decreases_to!(e => e.0));
    assert(decreases_to!(e => e.1));
}

/// The entries of a map are structurally smaller than the value holding the map.
pub proof fn lemma_view_decreases(v: Value)
    requires
        v is Mapping,
    ensures
        decreases_to!(v => v->Mapping_0@),
{
    let m = v->Mapping_0;
    assert(decreases_to!(v => v->Mapping_0));
    assert(decreases_to!(m => m.data));
    assert(decreases_to!(*m.data => (*m.data)@));
}

/// An integer counts as true exactly when it is nonzero, whatever its sign or type: two
/// integers of opposite value, or of the same value, are alike in truthiness; zero is
/// false and every other integer true.
pub proof fn law_int_truthy(i: Int, j: Int)
    ensures
        int_value(i) == -int_value(j) ==> value_truthy(Value::Number(Number::Int(i))) == value_truthy(
            Value::Number(Number::Int(j)),
        ),
        int_value(i) == int_value(j) ==> value_truthy(Value::Number(Number::Int(i))) == value_truthy(
            Value::Number(Number::Int(j)),
        ),
        int_value(i) == 0 ==> !value_truthy(Value::Number(Number::Int(i))),
        int_value(i) != 0 ==> value_truthy(Value::Number(Number::Int(i))),
        value_truthy(Value::Number(Number::Int(i))) == value_ref_truthy(ValueRef::Number(Number::Int(i))),
{
}

/// A float and its negation are alike in truthiness, and a zero of either sign is false,
/// for owned and borrowed values alike.
pub proof fn law_float_truthy(f: Float)
    ensures
        value_truthy(Value::Number(Number::Float(f))) == value_truthy(Value::Number(Number::Float(match f {
            Float::F32(b) => Float::F32(b ^ 0x8000_0000u32),
            Float::F64(b) => Float::F64(b ^ 0x8000_0000_0000_0000u64),
        }))),
        match f {
            Float::F32(b) => (b & 0x7fff_ffffu32) == 0 ==> !value_truthy(Value::Number(Number::Float(f))),
            Float::F64(b) => (b & 0x7fff_ffff_ffff_ffffu64) == 0 ==> !value_truthy(Value::Number(Number::Float(f))),
        },
        value_truthy(Value::Number(Number::Float(f))) == value_ref_truthy(ValueRef::Number(Number::Float(f))),
{
    law_float_nonzero_sign(f);
}

proof fn lemma_equal_maps_lookup(x: ValueMap, y: ValueMap, k: Value)
    requires
        sorted_keys(y@),
        value_eq(Value::Mapping(x), Value::Mapping(y)),
        map_lookup(x@, k) is Some,
    ensures
        map_lookup(y@, k) matches Some(b) && value_eq(map_lookup(x@, k)->Some_0, b),
{
    let s = x@;
    let t = y@;
    lemma_entries_eq(s, t);
    let p = first_not_less(s, k) as int;
    assert(pair_eq(s, t, p));
    law_equal_values_alike(s[p].0, t[p].0);
    lemma_key_order(t[p].0, s[p].0, k);
    lemma_key_order(k, s[p].0, t[p].0);
    lemma_key_order(s[p].0, t[p].0, k);
    lemma_lookup_at(t, k, p);
}

/// Equal maps hold the same keys: a lookup of any key finds something in one exactly when
/// it does in the other, and what the two find is equal.
pub proof fn law_equal_maps_same_keys(x: ValueMap, y: ValueMap, k: Value)
    requires
        sorted_keys(x@),
        sorted_keys(y@),
        value_eq(Value::Mapping(x), Value::Mapping(y)),
    ensures
        map_lookup(x@, k) is Some <==> map_lookup(y@, k) is Some,
        map_lookup(x@, k) matches Some(a) ==> (map_lookup(y@, k) matches Some(b) && value_eq(a, b)),
        x@.len() == y@.len(),
{
    lemma_entries_eq(x@, y@);
    law_value_eq_symmetric(Value::Mapping(x), Value::Mapping(y));
    if map_lookup(x@, k) is Some {
        lemma_equal_maps_lookup(x, y, k);
    }
    if map_lookup(y@, k) is Some {
        lemma_equal_maps_lookup(y, x, k);
    }
}

/// The text of a map: `{}` when it is empty; otherwise `{`, then the lines of its entries,
/// then a line break and `}`, so that the text of a nonempty map always ends with `\n}`.
pub proof fn law_map_text(m: ValueMap)
    ensures
        m@.len() == 0 ==> display_text(Value::Mapping(m)) == seq!['{', '}'],
        m@.len() > 0 ==> display_text(Value::Mapping(m)) == seq!['{'] + entries_text(m@) + seq!['\n', '}'],
        m@.len() > 0 ==> ({
            let t = display_text(Value::Mapping(m));
            &&& t.len() >= 2
            &&& t[0] == '{'
            &&& t[t.len() - 2] == '\n'
            &&& t[t.len() - 1] == '}'
        }),
{
    if m@.len() == 0 {
        assert(display_text(Value::Mapping(m)) =~= seq!['{', '}']);
    } else {
        let t = display_text(Value::Mapping(m));
        assert(t =~= seq!['{'] + entries_text(m@) + seq!['\n', '}']);
    }
}

/// Each entry adds one line, `\n\t<key>: <value>`, after the lines of the entries before
/// it; no entries give no lines.
pub proof fn law_entry_lines(s: Seq<(Value, Value)>, k: Value, v: Value)
    ensures
        entries_text(Seq::empty()) == Seq::<char>::empty(),
        entries_text(s.push((k, v))) == entries_text(s) + seq!['\n', '\t'] + display_text(k) + seq![':', ' ']
            + display_text(v),
{
    assert(s.push((k, v)).subrange(0, s.len() as int) =~= s);
}

} // verus!
