//! Validation errors: single rule failures, and groups of them by position or by field.

use std::collections::BTreeMap;
use vstd::prelude::*;
use crate::text::{
    compare_text, concat3, decimal_string, decimal_text, lemma_text_order_antisym, lemma_text_order_trans,
    lemma_text_order_zero, text_order,
};

verus! {

/// A validation error.
#[derive(Debug)]
pub enum Error {
    /// Errors of the elements of a list, by index.
    List(ListError),
    /// Errors of the fields of an object, by name.
    Object(ObjectError),
    /// Several errors of one value.
    Group(ErrorGroup),
    /// An error with a message of its own in place of the underlying one's.
    Custom { error: Box<Error>, message: String },
    /// A rule that the value broke, and why.
    Rule { name: String, message: String },
}

/// Several errors of one value, in the order they were found.
#[derive(Debug)]
pub struct ErrorGroup(Vec<Error>);

/// Errors of the fields of an object, by field name in name order.
#[derive(Debug)]
pub struct ObjectError(Vec<(String, Vec<Error>)>);

/// Errors of the elements of a list, by index.
#[derive(Debug)]
pub struct ListError(BTreeMap<usize, Vec<Error>>);

/// An empty group of errors.
pub fn group() -> (r: ErrorGroup)
    ensures
        r@.len() == 0,
{
    ErrorGroup(Vec::new())
}

/// An object error with no field errors.
pub fn object() -> (r: ObjectError)
    ensures
        r@.len() == 0,
{
    ObjectError(Vec::new())
}

/// A list error with no element errors.
pub fn list() -> (r: ListError)
    ensures
        r@.len() == 0,
{
    let m: BTreeMap<usize, Vec<Error>> = BTreeMap::new();
    proof {
        let ks = Seq::<usize>::empty();
        assert(keys_listed(ks, m@));
        lemma_list_keys(m@, ks);
    }
    ListError(m)
}

/// The error is the rule `name` broken for the reason `message`.
pub open spec fn is_rule(e: Error, name: Seq<char>, message: Seq<char>) -> bool {
    e matches Error::Rule { name: n, message: m } && n@ == name && m@ == message
}

impl Error {
    /// The rule `name` broken for the reason `message`.
    pub fn rule(name: &str, message: String) -> (r: Error)
        ensures
            is_rule(r, name@, message@),
    {
        Error::Rule { name: name.to_owned(), message }
    }
}

impl View for ErrorGroup {
    type V = Seq<Error>;

    closed spec fn view(&self) -> Seq<Error> {
        self.0@
    }
}

impl ErrorGroup {
    /// Adds an error.
    pub fn push(&mut self, error: Error)
        ensures
            final(self)@ == old(self)@.push(error),
    {
        self.0.push(error);
    }

    /// The number of errors.
    pub fn len(&self) -> (r: usize)
        ensures
            r == self@.len(),
    {
        self.0.len()
    }

    /// Whether there are no errors.
    pub fn is_empty(&self) -> (r: bool)
        ensures
            r == (self@.len() == 0),
    {
        self.0.len() == 0
    }

    /// The errors, in order.
    pub fn errors(&self) -> (r: &Vec<Error>)
        ensures
            r@ == self@,
    {
        &self.0
    }

    /// `Ok` when there are no errors, else the group as an error.
    pub fn ok(self) -> (r: Result<(), Error>)
        ensures
            self@.len() == 0 ==> r is Ok,
            self@.len() > 0 ==> (r matches Err(Error::Group(g)) && g@ == self@),
    {
        if self.0.len() == 0 {
            Ok(())
        } else {
            Err(Error::Group(self))
        }
    }
}

/// Field errors, names taken as text.
pub open spec fn object_error_view(v: Seq<(String, Vec<Error>)>) -> Seq<(Seq<char>, Seq<Error>)> {
    Seq::new(v.len(), |i: int| (v[i].0@, v[i].1@))
}

/// The index of the first entry whose name is not below `k`.
pub open spec fn name_pos(s: Seq<(Seq<char>, Seq<Error>)>, k: Seq<char>) -> nat
    decreases s.len(),
{
    if s.len() == 0 {
        0
    } else if text_order(s[0].0, k) >= 0 {
        0
    } else {
        1 + name_pos(s.drop_first(), k)
    }
}

/// The field errors after adding `e` under the name `k`: appended to the errors of `k`
/// if it has some, else as the only error of `k`, placed in name order.
pub open spec fn add_field_error(s: Seq<(Seq<char>, Seq<Error>)>, k: Seq<char>, e: Error) -> Seq<(Seq<char>, Seq<Error>)> {
    let p = name_pos(s, k) as int;
    if p < s.len() && s[p].0 == k {
        s.update(p, (k, s[p].1.push(e)))
    } else {
        s.insert(p, (k, seq![e]))
    }
}

proof fn lemma_name_pos(s: Seq<(Seq<char>, Seq<Error>)>, k: Seq<char>, p: int)
    requires
        0 <= p <= s.len(),
        forall|j: int| 0 <= j < p ==> #[trigger] text_order(s[j].0, k) < 0,
        p == s.len() || text_order(s[p].0, k) >= 0,
    ensures
        name_pos(s, k) == p,
    decreases p,
{
    if p > 0 {
        let t = s.drop_first();
        assert(text_order(s[0].0, k) < 0);
        assert forall|j: int| 0 <= j < p - 1 implies #[trigger] text_order(t[j].0, k) < 0 by {
            assert(text_order(s[j + 1].0, k) < 0);
        }
        lemma_name_pos(t, k, p - 1);
    }
}

/// Field names strictly increase by code points: each field has one entry.
pub open spec fn names_sorted(s: Seq<(Seq<char>, Seq<Error>)>) -> bool {
    forall|i: int, j: int| 0 <= i < j < s.len() ==> #[trigger] text_order(s[i].0, s[j].0) < 0
}

/// Adding an error keeps the names strictly increasing.
proof fn lemma_add_field_error_sorted(s: Seq<(Seq<char>, Seq<Error>)>, k: Seq<char>, e: Error)
    requires
        names_sorted(s),
    ensures
        names_sorted(add_field_error(s, k, e)),
{
    let p = name_pos(s, k) as int;
    lemma_name_pos_props(s, k);
    let t = add_field_error(s, k, e);
    if p < s.len() && s[p].0 == k {
        assert forall|i: int, j: int| 0 <= i < j < t.len() implies #[trigger] text_order(t[i].0, t[j].0) < 0 by {
            assert(t[i].0 == s[i].0 && t[j].0 == s[j].0);
        }
    } else {
        if p < s.len() {
            lemma_text_order_zero(s[p].0, k);
            lemma_text_order_antisym(s[p].0, k);
        }
        assert forall|i: int, j: int| 0 <= i < j < t.len() implies #[trigger] text_order(t[i].0, t[j].0) < 0 by {
            if j < p {
                assert(t[i] == s[i] && t[j] == s[j]);
            } else if j == p {
                assert(t[i] == s[i]);
            } else if i == p {
                assert(t[j] == s[j - 1]);
                if j - 1 > p {
                    lemma_text_order_trans(k, s[p].0, s[j - 1].0);
                }
            } else if i < p {
                assert(t[i] == s[i] && t[j] == s[j - 1]);
                if j - 1 >= p {
                    if j - 1 > p {
                        lemma_text_order_trans(k, s[p].0, s[j - 1].0);
                    }
                    lemma_text_order_trans(s[i].0, k, s[j - 1].0);
                }
            } else {
                assert(t[i] == s[i - 1] && t[j] == s[j - 1]);
            }
        }
    }
}

proof fn lemma_name_pos_props(s: Seq<(Seq<char>, Seq<Error>)>, k: Seq<char>)
    ensures
        name_pos(s, k) <= s.len(),
        forall|j: int| 0 <= j < name_pos(s, k) ==> #[trigger] text_order(s[j].0, k) < 0,
        name_pos(s, k) < s.len() ==> text_order(s[name_pos(s, k) as int].0, k) >= 0,
    decreases s.len(),
{
    if s.len() > 0 && text_order(s[0].0, k) < 0 {
        let t = s.drop_first();
        lemma_name_pos_props(t, k);
        assert forall|j: int| 0 <= j < name_pos(s, k) implies #[trigger] text_order(s[j].0, k) < 0 by {
            if j > 0 {
                assert(text_order(t[j - 1].0, k) < 0);
            }
        }
    }
}

impl View for ObjectError {
    type V = Seq<(Seq<char>, Seq<Error>)>;

    closed spec fn view(&self) -> Seq<(Seq<char>, Seq<Error>)> {
        object_error_view(self.0@)
    }
}

impl ObjectError {
    #[verifier::type_invariant]
    spec fn well_formed(&self) -> bool {
        names_sorted(object_error_view(self.0@))
    }

    /// Whether there are no field errors.
    pub fn is_empty(&self) -> (r: bool)
        ensures
            r == (self@.len() == 0),
    {
        self.0.len() == 0
    }

    /// `Ok` when there are no field errors, else the object error.
    pub fn ok(self) -> (r: Result<(), Error>)
        ensures
            self@.len() == 0 ==> r is Ok,
            self@.len() > 0 ==> (r matches Err(Error::Object(o)) && o@ == self@),
    {
        if self.0.len() == 0 {
            Ok(())
        } else {
            Err(Error::Object(self))
        }
    }

    /// Adds `error` to the errors of the field `name`.
    pub fn field(self, name: &str, error: Error) -> (r: Self)
        ensures
            r@ == add_field_error(self@, name@, error),
    {
        proof {
            use_type_invariant(&self);
            lemma_add_field_error_sorted(self@, name@, error);
        }
        let mut v = self.0;
        let ghost s = object_error_view(v@);
        let n = v.len();
        let mut p: usize = 0;
        let mut c: i8 = 1;
        while p < n
            invariant
                n == v@.len(),
                s == object_error_view(v@),
                p <= n,
                forall|j: int| 0 <= j < p ==> #[trigger] text_order(s[j].0, name@) < 0,
            ensures
                p <= n,
                forall|j: int| 0 <= j < p ==> #[trigger] text_order(s[j].0, name@) < 0,
                p < n ==> c >= 0 && c as int == text_order(s[p as int].0, name@),
            decreases n - p,
        {
            c = compare_text(v[p].0.as_str(), name);
            if c >= 0 {
                break;
            }
            p = p + 1;
        }
        proof {
            lemma_name_pos(s, name@, p as int);
            if p < n {
                lemma_text_order_zero(s[p as int].0, name@);
            }
        }
        if p < n && c == 0 {
            let (k, mut errs) = v.remove(p);
            errs.push(error);
            v.insert(p, (k, errs));
            proof {
                assert(object_error_view(v@) =~= add_field_error(s, name@, error));
            }
        } else {
            let mut errs: Vec<Error> = Vec::new();
            errs.push(error);
            v.insert(p, (name.to_owned(), errs));
            proof {
                assert(object_error_view(v@) =~= add_field_error(s, name@, error));
            }
        }
        ObjectError(v)
    }

    /// The field errors in name order, one entry per field.
    pub fn entries(&self) -> (r: &Vec<(String, Vec<Error>)>)
        ensures
            object_error_view(r@) == self@,
            names_sorted(self@),
    {
        proof {
            use_type_invariant(self);
        }
        &self.0
    }
}

/// Indexes that strictly increase.
pub open spec fn keys_increasing(ks: Seq<usize>) -> bool {
    forall|i: int, j: int| 0 <= i < j < ks.len() ==> #[trigger] ks[i] < #[trigger] ks[j]
}

/// `ks` lists the keys of `m`, each once, in increasing order.
pub open spec fn keys_listed(ks: Seq<usize>, m: Map<usize, Vec<Error>>) -> bool {
    &&& keys_increasing(ks)
    &&& forall|i: int| 0 <= i < ks.len() ==> m.contains_key(#[trigger] ks[i])
    &&& forall|k: usize| #[trigger] m.contains_key(k) ==> exists|i: int| 0 <= i < ks.len() && ks[i] == k
}

/// The indexes of a map of element errors, in increasing order.
pub closed spec fn list_keys(m: Map<usize, Vec<Error>>) -> Seq<usize> {
    choose|ks: Seq<usize>| keys_listed(ks, m)
}

/// The entries of a map of element errors in index order, errors taken as sequences.
pub open spec fn list_entries(m: Map<usize, Vec<Error>>) -> Seq<(nat, Seq<Error>)> {
    list_keys(m).map_values(|k: usize| (k as nat, m[k]@))
}

/// Two lists of the keys of one map are the same list.
proof fn lemma_keys_unique(a: Seq<usize>, b: Seq<usize>, m: Map<usize, Vec<Error>>)
    requires
        keys_listed(a, m),
        keys_listed(b, m),
    ensures
        a == b,
    decreases a.len(),
{
    if a.len() == 0 {
        if b.len() > 0 {
            assert(m.contains_key(b[0]));
        }
        assert(a =~= b);
    } else {
        assert(m.contains_key(a[0]));
        let j = choose|j: int| 0 <= j < b.len() && b[j] == a[0];
        assert(m.contains_key(b[0]));
        let i = choose|i: int| 0 <= i < a.len() && a[i] == b[0];
        if j > 0 {
            assert(b[0] < b[j]);
        }
        if i > 0 {
            assert(a[0] < a[i]);
        }
        assert(a[0] == b[0]);
        let k = a[0];
        let m1 = m.remove(k);
        let a1 = a.drop_first();
        let b1 = b.drop_first();
        assert forall|x: int| 0 <= x < a1.len() implies m1.contains_key(#[trigger] a1[x]) by {
            assert(a[0] < a[x + 1]);
        }
        assert forall|x: int| 0 <= x < b1.len() implies m1.contains_key(#[trigger] b1[x]) by {
            assert(b[0] < b[x + 1]);
        }
        assert forall|q: usize| #[trigger] m1.contains_key(q) implies exists|x: int| 0 <= x < a1.len() && a1[x] == q by {
            assert(m.contains_key(q));
            let x = choose|x: int| 0 <= x < a.len() && a[x] == q;
            assert(a1[x - 1] == q);
        }
        assert forall|q: usize| #[trigger] m1.contains_key(q) implies exists|x: int| 0 <= x < b1.len() && b1[x] == q by {
            assert(m.contains_key(q));
            let x = choose|x: int| 0 <= x < b.len() && b[x] == q;
            assert(b1[x - 1] == q);
        }
        assert forall|x: int, y: int| 0 <= x < y < a1.len() implies #[trigger] a1[x] < #[trigger] a1[y] by {
            assert(a[x + 1] < a[y + 1]);
        }
        assert forall|x: int, y: int| 0 <= x < y < b1.len() implies #[trigger] b1[x] < #[trigger] b1[y] by {
            assert(b[x + 1] < b[y + 1]);
        }
        lemma_keys_unique(a1, b1, m1);
        assert(a1 == b1);
        assert(a1.len() == a.len() - 1);
        assert(b.len() > 0);
        assert(b1.len() == b.len() - 1);
        assert(a.len() == b.len());
        assert forall|x: int| 0 <= x < a.len() implies a[x] == b[x] by {
            if x > 0 {
                assert(a[x] == a1[x - 1] && b[x] == b1[x - 1]);
            }
        }
        assert(a =~= b);
    }
}

/// Where the keys of a map can be listed, `list_keys` lists them, and so does every other
/// list of them.
proof fn lemma_list_keys(m: Map<usize, Vec<Error>>, ks: Seq<usize>)
    requires
        keys_listed(ks, m),
    ensures
        list_keys(m) == ks,
{
    lemma_keys_unique(list_keys(m), ks, m);
}

/// The index of the first entry whose position is not below `k`.
pub open spec fn index_pos(s: Seq<(nat, Seq<Error>)>, k: nat) -> nat
    decreases s.len(),
{
    if s.len() == 0 {
        0
    } else if s[0].0 >= k {
        0
    } else {
        1 + index_pos(s.drop_first(), k)
    }
}

/// The element errors after adding `e` at position `k`.
pub open spec fn add_index_error(s: Seq<(nat, Seq<Error>)>, k: nat, e: Error) -> Seq<(nat, Seq<Error>)> {
    let p = index_pos(s, k) as int;
    if p < s.len() && s[p].0 == k {
        s.update(p, (k, s[p].1.push(e)))
    } else {
        s.insert(p, (k, seq![e]))
    }
}

proof fn lemma_index_pos(s: Seq<(nat, Seq<Error>)>, k: nat, p: int)
    requires
        0 <= p <= s.len(),
        forall|j: int| 0 <= j < p ==> #[trigger] s[j].0 < k,
        p == s.len() || s[p].0 >= k,
    ensures
        index_pos(s, k) == p,
    decreases p,
{
    if p > 0 {
        let t = s.drop_first();
        assert(s[0].0 < k);
        assert forall|j: int| 0 <= j < p - 1 implies #[trigger] t[j].0 < k by {
            assert(s[j + 1].0 < k);
        }
        lemma_index_pos(t, k, p - 1);
    }
}

/// Indexes strictly increase: each index has one entry.
pub open spec fn indexes_sorted(s: Seq<(nat, Seq<Error>)>) -> bool {
    forall|i: int, j: int| 0 <= i < j < s.len() ==> #[trigger] s[i].0 < #[trigger] s[j].0
}

proof fn lemma_index_pos_props(s: Seq<(nat, Seq<Error>)>, k: nat)
    ensures
        index_pos(s, k) <= s.len(),
        forall|j: int| 0 <= j < index_pos(s, k) ==> #[trigger] s[j].0 < k,
        index_pos(s, k) < s.len() ==> s[index_pos(s, k) as int].0 >= k,
    decreases s.len(),
{
    if s.len() > 0 && s[0].0 < k {
        let t = s.drop_first();
        lemma_index_pos_props(t, k);
        assert forall|j: int| 0 <= j < index_pos(s, k) implies #[trigger] s[j].0 < k by {
            if j > 0 {
                assert(t[j - 1].0 < k);
            }
        }
    }
}

/// Adding an error at an index above all present ones appends an entry for it.
pub proof fn lemma_add_index_error_last(s: Seq<(nat, Seq<Error>)>, k: nat, e: Error)
    requires
        forall|j: int| 0 <= j < s.len() ==> #[trigger] s[j].0 < k,
    ensures
        add_index_error(s, k, e) == s.push((k, seq![e])),
{
    lemma_index_pos(s, k, s.len() as int);
    assert(s.insert(s.len() as int, (k, seq![e])) =~= s.push((k, seq![e])));
}

/// Adding an error keeps the indexes strictly increasing.
proof fn lemma_add_index_error_sorted(s: Seq<(nat, Seq<Error>)>, k: nat, e: Error)
    requires
        indexes_sorted(s),
    ensures
        indexes_sorted(add_index_error(s, k, e)),
{
    lemma_index_pos_props(s, k);
    let p = index_pos(s, k) as int;
    let t = add_index_error(s, k, e);
    assert forall|i: int, j: int| 0 <= i < j < t.len() implies #[trigger] t[i].0 < #[trigger] t[j].0 by {
        if p < s.len() && s[p].0 == k {
            assert(t[i].0 == s[i].0 && t[j].0 == s[j].0);
        } else if j < p {
            assert(t[i] == s[i] && t[j] == s[j]);
        } else if j == p {
            assert(t[i] == s[i]);
        } else if i == p {
            assert(t[j] == s[j - 1]);
            assert(s[p].0 <= s[j - 1].0);
        } else if i < p {
            assert(t[i] == s[i] && t[j] == s[j - 1]);
            assert(s[p].0 <= s[j - 1].0);
        } else {
            assert(t[i] == s[i - 1] && t[j] == s[j - 1]);
        }
    }
}

/// `usize` keys follow the order that the map's specification assumes, and a sequence of
/// them that it calls increasing is strictly increasing.
proof fn lemma_index_keys_ordered(ks: Seq<usize>)
    ensures
        vstd::laws_cmp::obeys_cmp::<usize>(),
        vstd::std_specs::btree::key_obeys_cmp_spec::<usize>(),
        vstd::std_specs::btree::increasing_seq(ks) ==> forall|i: int, j: int|
            0 <= i < j < ks.len() ==> #[trigger] ks[i] < #[trigger] ks[j],
{
    broadcast use vstd::std_specs::btree::axiom_key_obeys_cmp_spec_meaning, vstd::laws_cmp::group_laws_cmp,
        vstd::std_specs::btree::axiom_increasing_seq_meaning;
    if vstd::std_specs::btree::increasing_seq(ks) {
        assert forall|i: int, j: int| 0 <= i < j < ks.len() implies #[trigger] ks[i] < #[trigger] ks[j] by {
            assert(vstd::std_specs::cmp::OrdSpec::cmp_spec(&ks[i], &ks[j]) is Less);
        }
    }
}

/// What the keys of a list error's map give: its entries in index order.
proof fn lemma_keys(l: ListError)
    requires
        keys_listed(list_keys(l.0@), l.0@),
    ensures
        keys_listed(list_keys(l.0@), l.0@),
        l@.len() == list_keys(l.0@).len(),
        indexes_sorted(l@),
        forall|i: int| 0 <= i < l@.len() ==> #[trigger] l@[i] == (list_keys(l.0@)[i] as nat, l.0@[list_keys(l.0@)[i]]@),
{
}

/// The items a map's iterator yields are its entries in the order of `list_keys`.
proof fn lemma_iter_keys(m: Map<usize, Vec<Error>>, sq: Seq<(&usize, &Vec<Error>)>)
    requires
        keys_listed(list_keys(m), m),
        forall|i: int| 0 <= i < sq.len() ==> m.contains_key(*sq[i].0) && m[*sq[i].0] == *sq[i].1,
        forall|q: usize| #[trigger] m.contains_key(q) ==> sq.contains((&q, &m[q])),
        vstd::std_specs::btree::increasing_seq(sq.map_values(|kv: (&usize, &Vec<Error>)| *kv.0)),
    ensures
        sq.len() == list_keys(m).len(),
        forall|i: int| 0 <= i < sq.len() ==> *sq[i].0 == list_keys(m)[i] && m[list_keys(m)[i]] == *sq[i].1,
{
    let kq = sq.map_values(|kv: (&usize, &Vec<Error>)| *kv.0);
    lemma_index_keys_ordered(kq);
    assert forall|x: int| 0 <= x < kq.len() implies m.contains_key(#[trigger] kq[x]) by {
        assert(kq[x] == *sq[x].0);
    }
    assert forall|q: usize| #[trigger] m.contains_key(q) implies exists|x: int| 0 <= x < kq.len() && kq[x] == q by {
        assert(sq.contains((&q, &m[q])));
        let x = choose|x: int| 0 <= x < sq.len() && sq[x] == (&q, &m[q]);
        assert(kq[x] == q);
    }
    lemma_keys_unique(kq, list_keys(m), m);
    assert forall|i: int| 0 <= i < sq.len() implies *sq[i].0 == list_keys(m)[i] && m[list_keys(m)[i]] == *sq[i].1 by {
        assert(kq[i] == *sq[i].0);
    }
}

impl View for ListError {
    type V = Seq<(nat, Seq<Error>)>;

    closed spec fn view(&self) -> Seq<(nat, Seq<Error>)> {
        list_entries(self.0@)
    }
}

impl ListError {
    #[verifier::type_invariant]
    spec fn well_formed(&self) -> bool {
        keys_listed(list_keys(self.0@), self.0@)
    }

    /// Whether there are no element errors.
    pub fn is_empty(&self) -> (r: bool)
        ensures
            r == (self@.len() == 0),
    {
        proof {
            use_type_invariant(self);
            lemma_keys(*self);
            let ks = list_keys(self.0@);
            if ks.len() > 0 {
                assert(self.0@.contains_key(ks[0]));
            }
        }
        self.0.is_empty()
    }

    /// `Ok` when there are no element errors, else the list error.
    pub fn ok(self) -> (r: Result<(), Error>)
        ensures
            self@.len() == 0 ==> r is Ok,
            self@.len() > 0 ==> (r matches Err(Error::List(l)) && l@ == self@),
    {
        if self.is_empty() {
            Ok(())
        } else {
            Err(Error::List(self))
        }
    }

    /// Adds `error` to the errors of the element at `index`.
    pub fn index(self, index: usize, error: Error) -> (r: Self)
        ensures
            r@ == add_index_error(self@, index as nat, error),
    {
        proof {
            use_type_invariant(&self);
            lemma_keys(self);
            lemma_index_keys_ordered(Seq::empty());
        }
        let ghost s = self@;
        let ghost old_m = self.0@;
        let mut m = self.0;
        let mut errs = match m.remove(&index) {
            Some(v) => v,
            None => Vec::new(),
        };
        let ghost before = errs@;
        errs.push(error);
        m.insert(index, errs);
        proof {
            lemma_add_index_error_sorted(s, index as nat, error);
            lemma_add_index_error_map(s, old_m, index, error, m@);
            assert(keys_listed(list_keys(m@), m@));
        }
        ListError(m)
    }

    /// The element errors in index order, one entry per index.
    pub fn entries(&self) -> (r: Vec<(usize, &Vec<Error>)>)
        ensures
            r@.len() == self@.len(),
            forall|i: int| 0 <= i < r@.len() ==> #[trigger] self@[i] == (r@[i].0 as nat, r@[i].1@),
            indexes_sorted(self@),
    {
        proof {
            use_type_invariant(self);
            lemma_keys(*self);
            lemma_index_keys_ordered(Seq::empty());
        }
        let ghost m = self.0@;
        let ghost ks = list_keys(m);
        let iter = self.0.iter();
        proof {
            lemma_iter_keys(m, vstd::std_specs::iter::IteratorSpec::remaining(&iter));
        }
        let ghost sq = vstd::std_specs::iter::IteratorSpec::remaining(&iter);
        let mut out: Vec<(usize, &Vec<Error>)> = Vec::new();
        for (k, v) in it: iter
            invariant
                m == self.0@,
                ks == list_keys(m),
                it.seq() == sq,
                sq.len() == ks.len(),
                forall|i: int| 0 <= i < sq.len() ==> *sq[i].0 == ks[i] && m[ks[i]] == *sq[i].1,
                out@.len() == it.index(),
                forall|i: int| 0 <= i < out@.len() ==> #[trigger] out@[i] == (*sq[i].0, sq[i].1),
        {
            out.push((*k, v));
        }
        proof {
            assert forall|i: int| 0 <= i < out@.len() implies #[trigger] self@[i] == (out@[i].0 as nat, out@[i].1@) by {
                assert(*sq[i].0 == ks[i]);
            }
        }
        out
    }
}

/// After adding an error at `index`, the entries of the new map are the element errors
/// with the error added.
proof fn lemma_add_index_error_map(
    s: Seq<(nat, Seq<Error>)>,
    old_m: Map<usize, Vec<Error>>,
    index: usize,
    e: Error,
    new_m: Map<usize, Vec<Error>>,
)
    requires
        keys_listed(list_keys(old_m), old_m),
        s == list_entries(old_m),
        indexes_sorted(add_index_error(s, index as nat, e)),
        new_m.contains_key(index),
        new_m[index]@ == (if old_m.contains_key(index) { old_m[index]@ } else { Seq::empty() }).push(e),
        forall|k: usize| k != index ==> (#[trigger] new_m.contains_key(k) <==> old_m.contains_key(k)),
        forall|k: usize| k != index && old_m.contains_key(k) ==> #[trigger] new_m[k] == old_m[k],
    ensures
        keys_listed(list_keys(new_m), new_m),
        list_entries(new_m) == add_index_error(s, index as nat, e),
{
    let t = add_index_error(s, index as nat, e);
    let ks0 = list_keys(old_m);
    lemma_index_pos_props(s, index as nat);
    let p = index_pos(s, index as nat) as int;
    let found = p < s.len() && s[p].0 == index;
    assert forall|i: int| 0 <= i < s.len() implies #[trigger] s[i].0 == ks0[i] && s[i].1 == old_m[ks0[i]]@ by {}
    assert forall|i: int| 0 <= i < t.len() implies #[trigger] t[i].0 <= usize::MAX by {
        if found {
            assert(t[i].0 == s[i].0);
        } else if i < p {
            assert(t[i] == s[i]);
        } else if i > p {
            assert(t[i] == s[i - 1]);
        }
    }
    let ks = t.map_values(|q: (nat, Seq<Error>)| q.0 as usize);
    assert forall|i: int| 0 <= i < t.len() implies #[trigger] ks[i] as nat == t[i].0 by {
        assert(t[i].0 <= usize::MAX);
    }
    assert forall|i: int, j: int| 0 <= i < j < ks.len() implies #[trigger] ks[i] < #[trigger] ks[j] by {
        assert(t[i].0 < t[j].0);
        assert(ks[i] as nat == t[i].0 && ks[j] as nat == t[j].0);
    }
    assert forall|i: int| 0 <= i < ks.len() implies new_m.contains_key(#[trigger] ks[i]) && new_m[ks[i]]@ == t[i].1 by {
        assert(ks[i] as nat == t[i].0);
        if found {
            if i == p {
                assert(old_m.contains_key(ks0[p]));
            } else {
                assert(t[i] == s[i]);
                assert(old_m.contains_key(ks0[i]));
                assert(ks0[i] != index) by {
                    assert(s[i].0 != s[p].0);
                }
            }
        } else if i == p {
            if old_m.contains_key(index) {
                let x = choose|x: int| 0 <= x < ks0.len() && ks0[x] == index;
                assert(s[x].0 == index);
                if x < p {
                    assert(s[x].0 < index);
                } else {
                    assert(s[x].0 >= s[p].0);
                    if x > p {
                        assert(s[p].0 < s[x].0);
                    }
                }
            }
            assert(t[i].1 =~= Seq::<Error>::empty().push(e));
        } else {
            let x = if i < p { i } else { i - 1 };
            assert(t[i] == s[x]);
            assert(old_m.contains_key(ks0[x]));
            assert(ks0[x] != index) by {
                if x < p {
                    assert(s[x].0 < index);
                } else {
                    assert(s[x].0 >= s[p].0);
                }
            }
        }
    }
    assert forall|q: usize| #[trigger] new_m.contains_key(q) implies exists|i: int| 0 <= i < ks.len() && ks[i] == q by {
        if q == index {
            if found {
                assert(ks[p] as nat == t[p].0);
            } else {
                assert(ks[p] as nat == t[p].0);
            }
        } else {
            assert(old_m.contains_key(q));
            let x = choose|x: int| 0 <= x < ks0.len() && ks0[x] == q;
            let i = if found || x < p { x } else { x + 1 };
            if found {
                assert(t[i].0 == s[x].0);
            } else if x < p {
                assert(t[i] == s[x]);
            } else {
                assert(t[i] == s[x]);
            }
            assert(ks[i] as nat == t[i].0);
        }
    }
    lemma_list_keys(new_m, ks);
    assert(list_entries(new_m) =~= t) by {
        assert forall|i: int| 0 <= i < t.len() implies #[trigger] list_entries(new_m)[i] == t[i] by {
            assert(ks[i] as nat == t[i].0);
        }
    }
}

/// The text of an error: a broken rule as `name: message`; an error with a message of
/// its own as that message; a group as the texts of its errors one after another; an
/// object error as a line `name: text` for each error of each field, fields in name
/// order; a list error as, for each index in order, a line with the index and then a
/// line with the text of each of its errors.
pub closed spec fn error_text(e: Error) -> Seq<char>
    decreases e, 2nat,
{
    match e {
        Error::Rule { name, message } => name@ + ": "@ + message@,
        Error::Custom { message, .. } => message@,
        Error::Group(g) => group_text(g.0@),
        Error::Object(o) => object_text(o.0@),
        Error::List(l) => {
            proof {
                assert(decreases_to!(l => l.0));
                assert(decreases_to!(l.0 => l.0@));
            }
            list_text(l.0@, list_keys(l.0@))
        },
    }
}

/// The texts of the errors one after another.
spec fn group_text(s: Seq<Error>) -> Seq<char>
    decreases s, 1nat,
{
    if s.len() == 0 {
        Seq::empty()
    } else {
        group_text(s.subrange(0, s.len() - 1)) + error_text(s[s.len() - 1])
    }
}

/// A line `name: text` for each error.
spec fn field_lines(name: Seq<char>, s: Seq<Error>) -> Seq<char>
    decreases s, 1nat,
{
    if s.len() == 0 {
        Seq::empty()
    } else {
        field_lines(name, s.subrange(0, s.len() - 1)) + name + ": "@ + error_text(s[s.len() - 1]) + "\n"@
    }
}

/// A line with the text of each error.
spec fn error_lines(s: Seq<Error>) -> Seq<char>
    decreases s, 1nat,
{
    if s.len() == 0 {
        Seq::empty()
    } else {
        error_lines(s.subrange(0, s.len() - 1)) + error_text(s[s.len() - 1]) + "\n"@
    }
}

/// The lines of the errors of each field.
spec fn object_text(s: Seq<(String, Vec<Error>)>) -> Seq<char>
    decreases s, 1nat,
{
    if s.len() == 0 {
        Seq::empty()
    } else {
        object_text(s.subrange(0, s.len() - 1)) + field_lines(s[s.len() - 1].0@, s[s.len() - 1].1@)
    }
}

/// For each index of `ks`, a line with it and then the lines of its errors in `m`.
spec fn list_text(m: Map<usize, Vec<Error>>, ks: Seq<usize>) -> Seq<char>
    decreases m, ks.len(),
{
    if ks.len() == 0 {
        Seq::empty()
    } else {
        let k = ks[ks.len() - 1];
        let lines = if m.dom().finite() && m.contains_key(k) {
            proof {
                assert(decreases_to!(m => m[k]));
                assert(decreases_to!(m[k] => m[k]@));
            }
            error_lines(m[k]@)
        } else {
            Seq::empty()
        };
        list_text(m, ks.drop_last()) + decimal_text(k as nat) + "\n"@ + lines
    }
}

/// The text of a broken rule, and of an error with a message of its own.
pub proof fn lemma_error_text(e: Error)
    ensures
        e matches Error::Rule { name, message } ==> error_text(e) == name@ + ": "@ + message@,
        e matches Error::Custom { message, .. } ==> error_text(e) == message@,
{
}

impl Error {
    /// The text of the error.
    pub fn to_string(&self) -> (r: String)
        ensures
            r@ == error_text(*self),
        decreases self,
    {
        match self {
            Error::Rule { name, message } => concat3(name.as_str(), ": ", message.as_str()),
            Error::Custom { message, .. } => message.clone(),
            Error::Group(g) => {
                let v = &g.0;
                let mut out = String::new();
                let mut i: usize = 0;
                while i < v.len()
                    invariant
                        i <= v@.len(),
                        *self == Error::Group(*g),
                        *v == g.0,
                        out@ == group_text(v@.subrange(0, i as int)),
                    decreases v@.len() - i,
                {
                    proof {
                        assert(decreases_to!(*self => (*self)->Group_0));
                        assert(decreases_to!((*self)->Group_0 => g.0));
                        assert(decreases_to!(g.0 => g.0@));
                        assert(decreases_to!(g.0@ => g.0@[i as int]));
                        let s1 = v@.subrange(0, i + 1);
                        assert(s1.subrange(0, s1.len() - 1) =~= v@.subrange(0, i as int));
                    }
                    let t = v[i].to_string();
                    out.append(t.as_str());
                    i = i + 1;
                }
                assert(v@.subrange(0, v@.len() as int) =~= v@);
                out
            },
            Error::Object(o) => {
                let v = &o.0;
                let mut out = String::new();
                let mut i: usize = 0;
                while i < v.len()
                    invariant
                        i <= v@.len(),
                        *self == Error::Object(*o),
                        *v == o.0,
                        out@ == object_text(v@.subrange(0, i as int)),
                    decreases v@.len() - i,
                {
                    let name = &v[i].0;
                    let errs = &v[i].1;
                    let ghost head = out@;
                    let mut j: usize = 0;
                    assert(errs@.subrange(0, 0) =~= Seq::<Error>::empty());
                    while j < errs.len()
                        invariant
                            i < v@.len(),
                            j <= errs@.len(),
                            *self == Error::Object(*o),
                            *v == o.0,
                            *name == v@[i as int].0,
                            *errs == v@[i as int].1,
                            out@ == head + field_lines(name@, errs@.subrange(0, j as int)),
                        decreases errs@.len() - j,
                    {
                        proof {
                            assert(decreases_to!(*self => (*self)->Object_0));
                            assert(decreases_to!((*self)->Object_0 => o.0));
                            assert(decreases_to!(o.0 => o.0@));
                            assert(decreases_to!(o.0@ => o.0@[i as int]));
                            assert(decreases_to!(o.0@[i as int] => o.0@[i as int].1));
                            assert(decreases_to!(o.0@[i as int].1 => o.0@[i as int].1@));
                            assert(decreases_to!(o.0@[i as int].1@ => o.0@[i as int].1@[j as int]));
                            let s1 = errs@.subrange(0, j + 1);
                            assert(s1.subrange(0, s1.len() - 1) =~= errs@.subrange(0, j as int));
                        }
                        let t = errs[j].to_string();
                        out.append(name.as_str());
                        out.append(": ");
                        out.append(t.as_str());
                        out.append("\n");
                        proof {
                            assert(out@ =~= head + field_lines(name@, errs@.subrange(0, j + 1)));
                        }
                        j = j + 1;
                    }
                    proof {
                        assert(errs@.subrange(0, errs@.len() as int) =~= errs@);
                        let s1 = v@.subrange(0, i + 1);
                        assert(s1.subrange(0, s1.len() - 1) =~= v@.subrange(0, i as int));
                    }
                    i = i + 1;
                }
                assert(v@.subrange(0, v@.len() as int) =~= v@);
                out
            },
            Error::List(l) => {
                proof {
                    use_type_invariant(l);
                    lemma_keys(*l);
                    lemma_index_keys_ordered(Seq::empty());
                }
                let ghost m = l.0@;
                let ghost ks = list_keys(m);
                let iter = l.0.iter();
                proof {
                    lemma_iter_keys(m, vstd::std_specs::iter::IteratorSpec::remaining(&iter));
                }
                let ghost sq = vstd::std_specs::iter::IteratorSpec::remaining(&iter);
                let mut out = String::new();
                for (k, errs) in it: iter
                    invariant
                        *self == Error::List(*l),
                        m == l.0@,
                        m.dom().finite(),
                        ks == list_keys(m),
                        it.seq() == sq,
                        sq.len() == ks.len(),
                        forall|x: int| 0 <= x < sq.len() ==> *sq[x].0 == ks[x] && m.contains_key(ks[x]) && m[ks[x]] == *sq[x].1,
                        out@ == list_text(m, ks.take(it.index() as int)),
                {
                    let ghost i = it.index() as int;
                    proof {
                        assert(it.seq()[i] == (k, errs));
                        assert(*sq[i].0 == ks[i] && m.contains_key(ks[i]) && m[ks[i]] == *sq[i].1);
                    }
                    let index = *k;
                    let digits = decimal_string(index as u128);
                    out.append(digits.as_str());
                    out.append("\n");
                    let ghost head = out@;
                    let mut j: usize = 0;
                    assert(errs@.subrange(0, 0) =~= Seq::<Error>::empty());
                    while j < errs.len()
                        invariant
                            *self == Error::List(*l),
                            m == l.0@,
                            m.dom().finite(),
                            m.contains_key(index),
                            *errs == m[index],
                            j <= errs@.len(),
                            out@ == head + error_lines(errs@.subrange(0, j as int)),
                        decreases errs@.len() - j,
                    {
                        proof {
                            assert(decreases_to!(*self => (*self)->List_0));
                            assert(decreases_to!((*self)->List_0 => l.0));
                            assert(decreases_to!(l.0 => l.0@));
                            assert(decreases_to!(l.0@ => l.0@[index]));
                            assert(decreases_to!(l.0@[index] => l.0@[index]@));
                            assert(decreases_to!(l.0@[index]@ => l.0@[index]@[j as int]));
                            let s1 = errs@.subrange(0, j + 1);
                            assert(s1.subrange(0, s1.len() - 1) =~= errs@.subrange(0, j as int));
                        }
                        let t = errs[j].to_string();
                        out.append(t.as_str());
                        out.append("\n");
                        proof {
                            assert(out@ =~= head + error_lines(errs@.subrange(0, j + 1)));
                        }
                        j = j + 1;
                    }
                    proof {
                        assert(errs@.subrange(0, errs@.len() as int) =~= errs@);
                        let s1 = ks.take(i + 1);
                        assert(s1.drop_last() =~= ks.take(i));
                        assert(s1[s1.len() - 1] == index);
                    }
                }
                proof {
                    assert(ks.take(ks.len() as int) =~= ks);
                }
                out
            },
        }
    }
}

} // verus!
