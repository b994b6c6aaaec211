//! Metadata: values stored under text keys, kept in key order.

use std::sync::Arc;
use vstd::prelude::*;
use crate::text::{compare_text, lemma_text_order_antisym, lemma_text_order_trans, lemma_text_order_zero, text_order};
use crate::value::Value;

verus! {

/// Values under distinct text keys, in key order.
pub struct MetaData(Arc<Vec<(String, Value)>>);

/// Entries whose keys strictly increase by code points.
pub open spec fn meta_sorted(s: Seq<(Seq<char>, Value)>) -> bool {
    forall|i: int, j: int| 0 <= i < j < s.len() ==> #[trigger] text_order(s[i].0, s[j].0) < 0
}

/// The value stored under `k`: that of the first entry with the key `k`.
pub open spec fn meta_lookup(s: Seq<(Seq<char>, Value)>, k: Seq<char>) -> Option<Value>
    decreases s.len(),
{
    if s.len() == 0 {
        None
    } else if s[0].0 == k {
        Some(s[0].1)
    } else {
        meta_lookup(s.drop_first(), k)
    }
}

/// The entries after storing `v` under `k`, in key order.
pub open spec fn meta_insert(s: Seq<(Seq<char>, Value)>, k: Seq<char>, v: Value) -> Seq<(Seq<char>, Value)>
    decreases s.len(),
{
    if s.len() == 0 {
        seq![(k, v)]
    } else if text_order(s[0].0, k) == 0 {
        s.update(0, (s[0].0, v))
    } else if text_order(s[0].0, k) > 0 {
        s.insert(0, (k, v))
    } else {
        seq![s[0]] + meta_insert(s.drop_first(), k, v)
    }
}

/// The entries of `a` after storing each entry of `b` in turn.
pub open spec fn meta_merge(a: Seq<(Seq<char>, Value)>, b: Seq<(Seq<char>, Value)>) -> Seq<(Seq<char>, Value)>
    decreases b.len(),
{
    if b.len() == 0 {
        a
    } else {
        meta_insert(meta_merge(a, b.drop_last()), b.last().0, b.last().1)
    }
}

/// After storing `v` under `k`, a lookup of `k` finds `v`.
pub proof fn law_meta_lookup_after_insert(s: Seq<(Seq<char>, Value)>, k: Seq<char>, v: Value)
    ensures
        meta_lookup(meta_insert(s, k, v), k) == Some(v),
    decreases s.len(),
{
    if s.len() > 0 {
        lemma_text_order_zero(s[0].0, k);
        if text_order(s[0].0, k) < 0 {
            law_meta_lookup_after_insert(s.drop_first(), k, v);
            let t = meta_insert(s, k, v);
            assert(t.drop_first() =~= meta_insert(s.drop_first(), k, v));
        }
    }
}

/// Storing under `k` leaves what is stored under every other key.
pub proof fn law_meta_lookup_other_after_insert(s: Seq<(Seq<char>, Value)>, k: Seq<char>, v: Value, k2: Seq<char>)
    requires
        k2 != k,
    ensures
        meta_lookup(meta_insert(s, k, v), k2) == meta_lookup(s, k2),
    decreases s.len(),
{
    if s.len() == 0 {
        let t = meta_insert(s, k, v);
        assert(t.drop_first() =~= s);
        assert(meta_lookup(t, k2) == meta_lookup(t.drop_first(), k2));
    } else {
        lemma_text_order_zero(s[0].0, k);
        let t = meta_insert(s, k, v);
        if text_order(s[0].0, k) == 0 {
            assert(t[0].0 == k);
            assert(t.drop_first() =~= s.drop_first());
        } else if text_order(s[0].0, k) > 0 {
            assert(t[0].0 == k);
            assert(t.drop_first() =~= s);
        } else {
            law_meta_lookup_other_after_insert(s.drop_first(), k, v, k2);
            assert(t[0] == s[0]);
            assert(t.drop_first() =~= meta_insert(s.drop_first(), k, v));
            if s[0].0 == k2 {
                assert(meta_lookup(t, k2) == Some(s[0].1));
            } else {
                assert(meta_lookup(t, k2) == meta_lookup(t.drop_first(), k2));
            }
        }
    }
}

/// Storing keeps the keys in strict order.
pub proof fn lemma_meta_insert_sorted(s: Seq<(Seq<char>, Value)>, k: Seq<char>, v: Value)
    requires
        meta_sorted(s),
    ensures
        meta_sorted(meta_insert(s, k, v)),
        forall|j: int| 0 <= j < meta_insert(s, k, v).len() ==> #[trigger] meta_insert(s, k, v)[j].0 == k || exists|i: int|
            0 <= i < s.len() && s[i].0 == meta_insert(s, k, v)[j].0,
    decreases s.len(),
{
    let t = meta_insert(s, k, v);
    if s.len() == 0 {
        return;
    }
    lemma_text_order_zero(s[0].0, k);
    if text_order(s[0].0, k) == 0 {
        assert forall|j: int| 0 <= j < t.len() implies #[trigger] t[j].0 == k || exists|i: int|
            0 <= i < s.len() && s[i].0 == t[j].0 by {
            assert(s[j].0 == t[j].0);
        }
    } else if text_order(s[0].0, k) > 0 {
        lemma_text_order_antisym(s[0].0, k);
        assert forall|i: int, j: int| 0 <= i < j < t.len() implies #[trigger] text_order(t[i].0, t[j].0) < 0 by {
            if i == 0 {
                if j > 1 {
                    assert(text_order(s[0].0, s[j - 1].0) < 0);
                    lemma_text_order_trans(k, s[0].0, s[j - 1].0);
                }
            } else {
                assert(text_order(s[i - 1].0, s[j - 1].0) < 0);
            }
        }
        assert forall|j: int| 0 <= j < t.len() implies #[trigger] t[j].0 == k || exists|i: int|
            0 <= i < s.len() && s[i].0 == t[j].0 by {
            if j > 0 {
                assert(s[j - 1].0 == t[j].0);
            }
        }
    } else {
        let r = s.drop_first();
        assert(meta_sorted(r)) by {
            assert forall|i: int, j: int| 0 <= i < j < r.len() implies #[trigger] text_order(r[i].0, r[j].0) < 0 by {
                assert(text_order(s[i + 1].0, s[j + 1].0) < 0);
            }
        }
        lemma_meta_insert_sorted(r, k, v);
        let u = meta_insert(r, k, v);
        assert(t =~= seq![s[0]] + u);
        assert forall|i: int, j: int| 0 <= i < j < t.len() implies #[trigger] text_order(t[i].0, t[j].0) < 0 by {
            if i == 0 {
                assert(t[j] == u[j - 1]);
                if u[j - 1].0 != k {
                    let m = choose|m: int| 0 <= m < r.len() && r[m].0 == u[j - 1].0;
                    assert(text_order(s[0].0, s[m + 1].0) < 0);
                }
            } else {
                assert(t[i] == u[i - 1] && t[j] == u[j - 1]);
                assert(text_order(u[i - 1].0, u[j - 1].0) < 0);
            }
        }
        assert forall|j: int| 0 <= j < t.len() implies #[trigger] t[j].0 == k || exists|i: int|
            0 <= i < s.len() && s[i].0 == t[j].0 by {
            if j == 0 {
                assert(s[0].0 == t[0].0);
            } else {
                assert(t[j] == u[j - 1]);
                if u[j - 1].0 != k {
                    let m = choose|m: int| 0 <= m < r.len() && r[m].0 == u[j - 1].0;
                    assert(s[m + 1].0 == t[j].0);
                }
            }
        }
    }
}

/// Merging keeps the keys in strict order.
pub proof fn lemma_meta_merge_sorted(a: Seq<(Seq<char>, Value)>, b: Seq<(Seq<char>, Value)>)
    requires
        meta_sorted(a),
    ensures
        meta_sorted(meta_merge(a, b)),
    decreases b.len(),
{
    if b.len() > 0 {
        lemma_meta_merge_sorted(a, b.drop_last());
        lemma_meta_insert_sorted(meta_merge(a, b.drop_last()), b.last().0, b.last().1);
    }
}

proof fn lemma_meta_lookup_push(s: Seq<(Seq<char>, Value)>, e: (Seq<char>, Value), k: Seq<char>)
    ensures
        e.0 != k ==> meta_lookup(s.push(e), k) == meta_lookup(s, k),
        e.0 == k && (forall|i: int| 0 <= i < s.len() ==> #[trigger] s[i].0 != k) ==> meta_lookup(s.push(e), k) == Some(e.1),
    decreases s.len(),
{
    if s.len() == 0 {
        assert(s.push(e).drop_first() =~= s);
        assert(s.push(e)[0] == e);
    } else {
        lemma_meta_lookup_push(s.drop_first(), e, k);
        assert(s.push(e).drop_first() =~= s.drop_first().push(e));
        assert(s.push(e)[0] == s[0]);
        if e.0 == k && (forall|i: int| 0 <= i < s.len() ==> #[trigger] s[i].0 != k) {
            let r = s.drop_first();
            assert forall|i: int| 0 <= i < r.len() implies #[trigger] r[i].0 != k by {
                assert(s[i + 1].0 != k);
            }
            assert(s[0].0 != k);
        }
    }
}

/// Merging prefers the entries of `b`: a key stored in `b` reads as in `b`, any other
/// key as in `a`.
pub proof fn law_meta_merge_lookup(a: Seq<(Seq<char>, Value)>, b: Seq<(Seq<char>, Value)>, k: Seq<char>)
    requires
        meta_sorted(b),
    ensures
        meta_lookup(meta_merge(a, b), k) == (if meta_lookup(b, k) is Some {
            meta_lookup(b, k)
        } else {
            meta_lookup(a, k)
        }),
    decreases b.len(),
{
    if b.len() > 0 {
        let b1 = b.drop_last();
        let e = b.last();
        assert(meta_sorted(b1)) by {
            assert forall|i: int, j: int| 0 <= i < j < b1.len() implies #[trigger] text_order(b1[i].0, b1[j].0) < 0 by {
                assert(text_order(b[i].0, b[j].0) < 0);
            }
        }
        law_meta_merge_lookup(a, b1, k);
        assert(b1.push(e) =~= b);
        if e.0 == k {
            law_meta_lookup_after_insert(meta_merge(a, b1), e.0, e.1);
            assert forall|i: int| 0 <= i < b1.len() implies #[trigger] b1[i].0 != k by {
                assert(text_order(b[i].0, b[b.len() - 1].0) < 0);
                lemma_text_order_zero(b[i].0, b[b.len() - 1].0);
            }
            lemma_meta_lookup_push(b1, e, k);
        } else {
            law_meta_lookup_other_after_insert(meta_merge(a, b1), e.0, e.1, k);
            lemma_meta_lookup_push(b1, e, k);
        }
    }
}

/// The keys of entries.
pub open spec fn meta_keys(s: Seq<(Seq<char>, Value)>) -> Set<Seq<char>> {
    s.map_values(|e: (Seq<char>, Value)| e.0).to_set()
}

/// A key is stored exactly when some entry has it.
proof fn lemma_meta_lookup_some(s: Seq<(Seq<char>, Value)>, k: Seq<char>)
    ensures
        meta_lookup(s, k) is Some <==> meta_keys(s).contains(k),
    decreases s.len(),
{
    let ks = s.map_values(|e: (Seq<char>, Value)| e.0);
    if s.len() > 0 {
        lemma_meta_lookup_some(s.drop_first(), k);
        let r = s.drop_first();
        let kr = r.map_values(|e: (Seq<char>, Value)| e.0);
        assert(ks[0] == s[0].0);
        if meta_keys(r).contains(k) {
            let j = choose|j: int| 0 <= j < kr.len() && kr[j] == k;
            assert(ks[j + 1] == kr[j]);
        }
        if meta_keys(s).contains(k) && s[0].0 != k {
            let j = choose|j: int| 0 <= j < ks.len() && ks[j] == k;
            assert(j > 0);
            assert(kr[j - 1] == ks[j]);
        }
    }
}

/// Storing under a key above all present ones appends the entry.
proof fn lemma_meta_insert_last(s: Seq<(Seq<char>, Value)>, k: Seq<char>, v: Value)
    requires
        forall|j: int| 0 <= j < s.len() ==> #[trigger] text_order(s[j].0, k) < 0,
    ensures
        meta_insert(s, k, v) == s.push((k, v)),
    decreases s.len(),
{
    if s.len() > 0 {
        let r = s.drop_first();
        assert forall|j: int| 0 <= j < r.len() implies #[trigger] text_order(r[j].0, k) < 0 by {
            assert(text_order(s[j + 1].0, k) < 0);
        }
        lemma_meta_insert_last(r, k, v);
        assert(text_order(s[0].0, k) < 0);
        assert(seq![s[0]] + r.push((k, v)) =~= s.push((k, v)));
    } else {
        assert(seq![(k, v)] =~= s.push((k, v)));
    }
}

/// Merging into no entries gives the merged entries; merging no entries changes
/// nothing.
pub proof fn law_meta_merge_empty(a: Seq<(Seq<char>, Value)>, b: Seq<(Seq<char>, Value)>)
    requires
        meta_sorted(b),
    ensures
        meta_merge(a, Seq::empty()) == a,
        meta_merge(Seq::empty(), b) == b,
    decreases b.len(),
{
    if b.len() > 0 {
        let b1 = b.drop_last();
        assert(meta_sorted(b1)) by {
            assert forall|i: int, j: int| 0 <= i < j < b1.len() implies #[trigger] text_order(b1[i].0, b1[j].0) < 0 by {
                assert(text_order(b[i].0, b[j].0) < 0);
            }
        }
        law_meta_merge_empty(a, b1);
        assert forall|j: int| 0 <= j < b1.len() implies #[trigger] text_order(b1[j].0, b.last().0) < 0 by {
            assert(text_order(b[j].0, b[b.len() - 1].0) < 0);
        }
        lemma_meta_insert_last(b1, b.last().0, b.last().1);
        assert(b1.push(b.last()) =~= b);
    }
}

/// The merged entries hold one entry per key of either side.
pub proof fn law_meta_merge_keys(a: Seq<(Seq<char>, Value)>, b: Seq<(Seq<char>, Value)>)
    requires
        meta_sorted(a),
        meta_sorted(b),
    ensures
        meta_keys(meta_merge(a, b)) == meta_keys(a).union(meta_keys(b)),
        meta_merge(a, b).len() == meta_keys(a).union(meta_keys(b)).len(),
{
    let m = meta_merge(a, b);
    lemma_meta_merge_sorted(a, b);
    assert forall|k: Seq<char>| meta_keys(m).contains(k) == meta_keys(a).union(meta_keys(b)).contains(k) by {
        law_meta_merge_lookup(a, b, k);
        lemma_meta_lookup_some(m, k);
        lemma_meta_lookup_some(a, k);
        lemma_meta_lookup_some(b, k);
    }
    assert(meta_keys(m) =~= meta_keys(a).union(meta_keys(b)));
    let ks = m.map_values(|e: (Seq<char>, Value)| e.0);
    assert(ks.no_duplicates()) by {
        assert forall|i: int, j: int| 0 <= i < ks.len() && 0 <= j < ks.len() && i != j implies ks[i] != ks[j] by {
            if i < j {
                assert(text_order(m[i].0, m[j].0) < 0);
                lemma_text_order_zero(m[i].0, m[j].0);
            } else {
                assert(text_order(m[j].0, m[i].0) < 0);
                lemma_text_order_zero(m[j].0, m[i].0);
            }
        }
    }
    ks.unique_seq_to_set();
}

/// `meta_insert` splits at the first key not below `k`.
proof fn lemma_meta_insert_split(s: Seq<(Seq<char>, Value)>, k: Seq<char>, v: Value, i: int)
    requires
        0 <= i <= s.len(),
        forall|j: int| 0 <= j < i ==> #[trigger] text_order(s[j].0, k) < 0,
    ensures
        meta_insert(s, k, v) == s.subrange(0, i) + meta_insert(s.subrange(i, s.len() as int), k, v),
    decreases i,
{
    if i > 0 {
        let r = s.drop_first();
        assert forall|j: int| 0 <= j < i - 1 implies #[trigger] text_order(r[j].0, k) < 0 by {
            assert(text_order(s[j + 1].0, k) < 0);
        }
        lemma_meta_insert_split(r, k, v, i - 1);
        assert(text_order(s[0].0, k) < 0);
        assert(r.subrange(i - 1, r.len() as int) =~= s.subrange(i, s.len() as int));
        assert(s.subrange(0, i) =~= seq![s[0]] + r.subrange(0, i - 1));
    } else {
        assert(s.subrange(0, 0) + meta_insert(s.subrange(0, s.len() as int), k, v) =~= meta_insert(s, k, v)) by {
            assert(s.subrange(0, s.len() as int) =~= s);
        }
    }
}

proof fn lemma_meta_view_push(v: Seq<(String, Value)>, x: (String, Value))
    ensures
        meta_view(v.push(x)) == meta_view(v).push((x.0@, x.1)),
{
    assert(meta_view(v.push(x)) =~= meta_view(v).push((x.0@, x.1)));
}

/// The entries of a vector, keys taken as text.
pub open spec fn meta_view(v: Seq<(String, Value)>) -> Seq<(Seq<char>, Value)> {
    Seq::new(v.len(), |i: int| (v[i].0@, v[i].1))
}

impl View for MetaData {
    type V = Seq<(Seq<char>, Value)>;

    closed spec fn view(&self) -> Seq<(Seq<char>, Value)> {
        meta_view((*self.0)@)
    }
}

impl MetaData {
    #[verifier::type_invariant]
    spec fn well_formed(&self) -> bool {
        meta_sorted(meta_view((*self.0)@))
    }

    /// No metadata.
    pub fn new() -> (r: Self)
        ensures
            r@ == Seq::<(Seq<char>, Value)>::empty(),
    {
        let v: Vec<(String, Value)> = Vec::new();
        proof {
            assert(meta_view(v@) =~= Seq::<(Seq<char>, Value)>::empty());
        }
        MetaData(Arc::new(v))
    }

    /// The number of entries; the entries are in strict key order.
    pub fn len(&self) -> (r: usize)
        ensures
            r == self@.len(),
            meta_sorted(self@),
    {
        proof {
            use_type_invariant(self);
        }
        self.0.len()
    }

    /// Whether there are no entries.
    pub fn is_empty(&self) -> (r: bool)
        ensures
            r == (self@.len() == 0),
    {
        self.0.len() == 0
    }

    /// The entries in strict key order.
    pub fn iter(&self) -> (r: Vec<(String, Value)>)
        ensures
            meta_view(r@) == self@,
            meta_sorted(self@),
    {
        proof {
            use_type_invariant(self);
        }
        let d: &Vec<(String, Value)> = &*self.0;
        let mut out: Vec<(String, Value)> = Vec::new();
        let mut i: usize = 0;
        while i < d.len()
            invariant
                i <= d@.len(),
                meta_view(out@) == meta_view(d@).subrange(0, i as int),
            decreases d@.len() - i,
        {
            let ghost before = out@;
            out.push((d[i].0.clone(), d[i].1.clone()));
            proof {
                lemma_meta_view_push(before, d@[i as int]);
            }
            assert(meta_view(out@) =~= meta_view(d@).subrange(0, i + 1));
            i = i + 1;
        }
        assert(meta_view(d@).subrange(0, d@.len() as int) =~= meta_view(d@));
        out
    }

    /// Whether the key `key` is present.
    pub fn has(&self, key: &str) -> (r: bool)
        ensures
            r == (meta_lookup(self@, key@) is Some),
    {
        self.get(key).is_some()
    }

    /// The value stored under `key`.
    pub fn get(&self, key: &str) -> (r: Option<&Value>)
        ensures
            match r {
                Some(v) => meta_lookup(self@, key@) == Some(*v),
                None => meta_lookup(self@, key@) is None,
            },
    {
        let d: &Vec<(String, Value)> = &*self.0;
        let mut i: usize = 0;
        assert(meta_view(d@).subrange(0, d@.len() as int) =~= meta_view(d@));
        while i < d.len()
            invariant
                i <= d@.len(),
                meta_view(d@) == self@,
                meta_lookup(meta_view(d@), key@) == meta_lookup(meta_view(d@).subrange(i as int, d@.len() as int), key@),
            decreases d@.len() - i,
        {
            let ghost rest = meta_view(d@).subrange(i as int, d@.len() as int);
            assert(rest.drop_first() =~= meta_view(d@).subrange(i + 1, d@.len() as int));
            if crate::text::text_eq(d[i].0.as_str(), key) {
                return Some(&d[i].1);
            }
            i = i + 1;
        }
        None
    }

    /// Stores `value` under `key`, in key order.
    fn insert(&mut self, key: &str, value: Value)
        ensures
            final(self)@ == meta_insert(old(self)@, key@, value),
    {
        proof {
            use_type_invariant(&*self);
        }
        let ghost v = value;
        let d: &Vec<(String, Value)> = &*self.0;
        let ghost s = meta_view(d@);
        let n = d.len();
        let mut out: Vec<(String, Value)> = Vec::new();
        let mut i: usize = 0;
        let mut c: i8 = 1;
        while i < n
            invariant
                n == d@.len(),
                s == meta_view(d@),
                i <= n,
                meta_view(out@) == s.subrange(0, i as int),
                forall|j: int| 0 <= j < i ==> #[trigger] text_order(s[j].0, key@) < 0,
            ensures
                i <= n,
                meta_view(out@) == s.subrange(0, i as int),
                forall|j: int| 0 <= j < i ==> #[trigger] text_order(s[j].0, key@) < 0,
                i < n ==> c >= 0 && c as int == text_order(s[i as int].0, key@),
            decreases n - i,
        {
            c = compare_text(d[i].0.as_str(), key);
            if c >= 0 {
                break;
            }
            let ghost before = out@;
            out.push((d[i].0.clone(), d[i].1.clone()));
            proof {
                lemma_meta_view_push(before, d@[i as int]);
            }
            assert(meta_view(out@) =~= s.subrange(0, i + 1));
            i = i + 1;
        }
        proof {
            lemma_meta_insert_split(s, key@, v, i as int);
        }
        let ghost rest = s.subrange(i as int, n as int);
        let ghost before = out@;
        if i < n && c == 0 {
            let kk = d[i].0.clone();
            out.push((kk, value));
            proof {
                lemma_meta_view_push(before, (kk, v));
            }
            i = i + 1;
        } else {
            let kk = key.to_owned();
            out.push((kk, value));
            proof {
                lemma_meta_view_push(before, (kk, v));
            }
        }
        let ghost head = meta_view(out@);
        let ghost start = i as int;
        while i < n
            invariant
                n == d@.len(),
                s == meta_view(d@),
                0 <= start <= i <= n,
                meta_view(out@) == head + s.subrange(start, i as int),
            decreases n - i,
        {
            let ghost before = out@;
            out.push((d[i].0.clone(), d[i].1.clone()));
            proof {
                lemma_meta_view_push(before, d@[i as int]);
            }
            assert(meta_view(out@) =~= head + s.subrange(start, i + 1));
            i = i + 1;
        }
        proof {
            let t = meta_insert(s, key@, v);
            lemma_text_order_zero(rest[0].0, key@);
            assert(meta_view(out@) =~= t);
            lemma_meta_insert_sorted(s, key@, v);
        }
        self.0 = Arc::new(out);
    }

    /// The entries of `self` with those of `other` stored over them.
    pub fn merge(self, other: &Self) -> (r: Self)
        ensures
            r@ == meta_merge(self@, other@),
    {
        let mut m = self;
        let entries = other.iter();
        let mut i: usize = 0;
        while i < entries.len()
            invariant
                i <= entries@.len(),
                meta_view(entries@) == other@,
                m@ == meta_merge(self@, other@.subrange(0, i as int)),
            decreases entries@.len() - i,
        {
            let (k, v) = (&entries[i].0, entries[i].1.clone());
            m.insert(k.as_str(), v);
            proof {
                let b = other@.subrange(0, i + 1);
                assert(b.drop_last() =~= other@.subrange(0, i as int));
            }
            i = i + 1;
        }
        assert(other@.subrange(0, entries@.len() as int) =~= other@);
        m
    }

    /// Metadata of the pairs, a later pair's value replacing an earlier one under the same key.
    pub fn from_pairs(items: Vec<(String, Value)>) -> (r: Self)
        ensures
            r@ == meta_merge(Seq::empty(), meta_view(items@)),
    {
        let mut m = MetaData::new();
        let mut i: usize = 0;
        while i < items.len()
            invariant
                i <= items@.len(),
                m@ == meta_merge(Seq::empty(), meta_view(items@).subrange(0, i as int)),
            decreases items@.len() - i,
        {
            m.insert(items[i].0.as_str(), items[i].1.clone());
            proof {
                let b = meta_view(items@).subrange(0, i + 1);
                assert(b.drop_last() =~= meta_view(items@).subrange(0, i as int));
            }
            i = i + 1;
        }
        assert(meta_view(items@).subrange(0, items@.len() as int) =~= meta_view(items@));
        m
    }
}

impl Clone for MetaData {
    fn clone(&self) -> (r: Self)
        ensures
            r == *self,
    {
        proof {
            use_type_invariant(self);
        }
        MetaData(self.0.clone())
    }
}

} // verus!
