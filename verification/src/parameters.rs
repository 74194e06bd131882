//! Property parameters: a map from parameter name to [`ParamValue`], kept in
//! ascending key order with each key at most once.

use vstd::prelude::*;

use crate::property::{ParamValue, SpecParamValue};
use crate::text::str_eq;

verus! {

/// Lexicographic order of strings by character code, the order of `str`'s `Ord`.
pub open spec fn key_lt(a: Seq<char>, b: Seq<char>) -> bool
    decreases a.len(),
{
    if a.len() == 0 {
        b.len() > 0
    } else if b.len() == 0 {
        false
    } else if a[0] < b[0] {
        true
    } else if a[0] == b[0] {
        key_lt(a.drop_first(), b.drop_first())
    } else {
        false
    }
}

pub proof fn lemma_key_lt_irreflexive(a: Seq<char>)
    ensures
        !key_lt(a, a),
    decreases a.len(),
{
    if a.len() > 0 {
        lemma_key_lt_irreflexive(a.drop_first());
    }
}

pub proof fn lemma_key_lt_transitive(a: Seq<char>, b: Seq<char>, c: Seq<char>)
    requires
        key_lt(a, b),
        key_lt(b, c),
    ensures
        key_lt(a, c),
    decreases a.len(),
{
    if a.len() > 0 && b.len() > 0 && c.len() > 0 && a[0] == b[0] && b[0] == c[0] {
        lemma_key_lt_transitive(a.drop_first(), b.drop_first(), c.drop_first());
    }
}

pub proof fn lemma_key_lt_total(a: Seq<char>, b: Seq<char>)
    ensures
        a == b || key_lt(a, b) || key_lt(b, a),
    decreases a.len(),
{
    if a.len() > 0 && b.len() > 0 && a[0] == b[0] {
        lemma_key_lt_total(a.drop_first(), b.drop_first());
        if a.drop_first() == b.drop_first() {
            assert(a =~= seq![a[0]] + a.drop_first());
            assert(b =~= seq![b[0]] + b.drop_first());
        }
    } else if a.len() == 0 && b.len() == 0 {
        assert(a =~= b);
    }
}

/// Whether the keys ascend strictly.
pub open spec fn params_sorted(s: Seq<(Seq<char>, SpecParamValue)>) -> bool {
    forall|i: int, j: int| 0 <= i < j < s.len() ==> key_lt(#[trigger] s[i].0, #[trigger] s[j].0)
}

/// The value under key `k`.
pub open spec fn param_lookup(s: Seq<(Seq<char>, SpecParamValue)>, k: Seq<char>) -> Option<
    SpecParamValue,
>
    decreases s.len(),
{
    if s.len() == 0 {
        None
    } else if s[0].0 == k {
        Some(s[0].1)
    } else {
        param_lookup(s.drop_first(), k)
    }
}

/// `s` with `(k, v)` put in its place: replacing the value under `k`, or
/// inserted before the first greater key.
pub open spec fn param_insert(
    s: Seq<(Seq<char>, SpecParamValue)>,
    k: Seq<char>,
    v: SpecParamValue,
) -> Seq<(Seq<char>, SpecParamValue)>
    decreases s.len(),
{
    if s.len() == 0 {
        seq![(k, v)]
    } else if key_lt(s[0].0, k) {
        seq![s[0]] + param_insert(s.drop_first(), k, v)
    } else if s[0].0 == k {
        seq![(k, v)] + s.drop_first()
    } else {
        seq![(k, v)] + s
    }
}

proof fn lemma_insert_elems(s: Seq<(Seq<char>, SpecParamValue)>, k: Seq<char>, v: SpecParamValue)
    ensures
        forall|e| #[trigger] param_insert(s, k, v).contains(e) ==> e == (k, v) || s.contains(e),
    decreases s.len(),
{
    if s.len() > 0 && key_lt(s[0].0, k) {
        lemma_insert_elems(s.drop_first(), k, v);
        let r = param_insert(s, k, v);
        assert forall|e| #[trigger] r.contains(e) implies e == (k, v) || s.contains(e) by {
            let i = choose|i: int| 0 <= i < r.len() && r[i] == e;
            if i > 0 {
                assert(param_insert(s.drop_first(), k, v)[i - 1] == e);
                assert(param_insert(s.drop_first(), k, v).contains(e));
                if s.drop_first().contains(e) {
                    let j = choose|j: int| 0 <= j < s.drop_first().len() && s.drop_first()[j] == e;
                    assert(s[j + 1] == e);
                }
            } else {
                assert(s[0] == e);
            }
        }
    } else if s.len() > 0 && s[0].0 == k {
        let r = param_insert(s, k, v);
        assert forall|e| #[trigger] r.contains(e) implies e == (k, v) || s.contains(e) by {
            let i = choose|i: int| 0 <= i < r.len() && r[i] == e;
            if i > 0 {
                assert(s[i] == e);
            }
        }
    } else if s.len() > 0 {
        let r = param_insert(s, k, v);
        assert forall|e| #[trigger] r.contains(e) implies e == (k, v) || s.contains(e) by {
            let i = choose|i: int| 0 <= i < r.len() && r[i] == e;
            if i > 0 {
                assert(s[i - 1] == e);
            }
        }
    } else {
        let r = param_insert(s, k, v);
        assert forall|e| #[trigger] r.contains(e) implies e == (k, v) || s.contains(e) by {
            let i = choose|i: int| 0 <= i < r.len() && r[i] == e;
            assert(i == 0);
        }
    }
}

/// Putting a key in keeps the keys ascending.
pub proof fn lemma_insert_sorted(s: Seq<(Seq<char>, SpecParamValue)>, k: Seq<char>, v: SpecParamValue)
    requires
        params_sorted(s),
    ensures
        params_sorted(param_insert(s, k, v)),
    decreases s.len(),
{
    let r = param_insert(s, k, v);
    if s.len() == 0 {
    } else if key_lt(s[0].0, k) {
        let t = s.drop_first();
        assert(params_sorted(t)) by {
            assert forall|i: int, j: int| 0 <= i < j < t.len() implies key_lt(
                #[trigger] t[i].0,
                #[trigger] t[j].0,
            ) by {
                assert(t[i] == s[i + 1] && t[j] == s[j + 1]);
            }
        }
        lemma_insert_sorted(t, k, v);
        lemma_insert_elems(t, k, v);
        let rt = param_insert(t, k, v);
        assert forall|i: int, j: int| 0 <= i < j < r.len() implies key_lt(
            #[trigger] r[i].0,
            #[trigger] r[j].0,
        ) by {
            if i == 0 {
                assert(r[j] == rt[j - 1]);
                assert(rt.contains(rt[j - 1]));
                if rt[j - 1] != (k, v) {
                    let m = choose|m: int| 0 <= m < t.len() && t[m] == rt[j - 1];
                    assert(s[m + 1] == t[m]);
                }
            } else {
                assert(r[i] == rt[i - 1] && r[j] == rt[j - 1]);
            }
        }
    } else if s[0].0 == k {
        assert forall|i: int, j: int| 0 <= i < j < r.len() implies key_lt(
            #[trigger] r[i].0,
            #[trigger] r[j].0,
        ) by {
            assert(r[j] == s[j]);
            if i > 0 {
                assert(r[i] == s[i]);
            }
        }
    } else {
        lemma_key_lt_total(s[0].0, k);
        assert forall|i: int, j: int| 0 <= i < j < r.len() implies key_lt(
            #[trigger] r[i].0,
            #[trigger] r[j].0,
        ) by {
            assert(r[j] == s[j - 1]);
            if i > 0 {
                assert(r[i] == s[i - 1]);
            } else if j > 1 {
                lemma_key_lt_transitive(k, s[0].0, s[j - 1].0);
            }
        }
    }
}

/// Reading a key after putting a value under it gives that value; every
/// other key keeps the value it had.
pub proof fn law_lookup_after_insert(
    s: Seq<(Seq<char>, SpecParamValue)>,
    k: Seq<char>,
    v: SpecParamValue,
    j: Seq<char>,
)
    ensures
        param_lookup(param_insert(s, k, v), j) == if j == k {
            Some(v)
        } else {
            param_lookup(s, j)
        },
    decreases s.len(),
{
    let r = param_insert(s, k, v);
    if s.len() == 0 {
        assert(r[0] == (k, v));
        assert(r.drop_first() =~= Seq::<(Seq<char>, SpecParamValue)>::empty());
        assert(param_lookup(r, j) == if j == k { Some(v) } else { param_lookup(s, j) });
    } else if key_lt(s[0].0, k) {
        law_lookup_after_insert(s.drop_first(), k, v, j);
        lemma_key_lt_irreflexive(k);
        assert(r[0] == s[0]);
        assert(r.drop_first() =~= param_insert(s.drop_first(), k, v));
        assert(param_lookup(r, j) == if j == k { Some(v) } else { param_lookup(s, j) });
    } else if s[0].0 == k {
        assert(r[0] == (k, v));
        assert(r.drop_first() =~= s.drop_first());
        assert(param_lookup(r, j) == if j == k { Some(v) } else { param_lookup(s, j) });
    } else {
        assert(r[0] == (k, v));
        assert(r.drop_first() =~= s);
        assert(param_lookup(r, j) == if j == k { Some(v) } else { param_lookup(s, j) });
    }
}

/// Putting in a key greater than every key present appends it.
pub proof fn lemma_insert_greatest(s: Seq<(Seq<char>, SpecParamValue)>, k: Seq<char>, v: SpecParamValue)
    requires
        forall|i: int| 0 <= i < s.len() ==> key_lt(#[trigger] s[i].0, k),
    ensures
        param_insert(s, k, v) == s.push((k, v)),
    decreases s.len(),
{
    if s.len() > 0 {
        let t = s.drop_first();
        assert forall|i: int| 0 <= i < t.len() implies key_lt(#[trigger] t[i].0, k) by {
            assert(t[i] == s[i + 1]);
        }
        lemma_insert_greatest(t, k, v);
        assert(param_insert(s, k, v) =~= s.push((k, v)));
    } else {
        assert(param_insert(s, k, v) =~= s.push((k, v)));
    }
}

/// Putting the entries of an ascending list, one by one, into an empty map
/// rebuilds the list.
pub open spec fn params_from_entries(s: Seq<(Seq<char>, SpecParamValue)>) -> Seq<
    (Seq<char>, SpecParamValue),
>
    decreases s.len(),
{
    if s.len() == 0 {
        Seq::empty()
    } else {
        let last = s.last();
        param_insert(params_from_entries(s.drop_last()), last.0, last.1)
    }
}

pub proof fn lemma_params_from_sorted_entries(s: Seq<(Seq<char>, SpecParamValue)>)
    requires
        params_sorted(s),
    ensures
        params_from_entries(s) == s,
    decreases s.len(),
{
    if s.len() > 0 {
        let t = s.drop_last();
        assert(params_sorted(t)) by {
            assert forall|i: int, j: int| 0 <= i < j < t.len() implies key_lt(
                #[trigger] t[i].0,
                #[trigger] t[j].0,
            ) by {
                assert(t[i] == s[i] && t[j] == s[j]);
            }
        }
        lemma_params_from_sorted_entries(t);
        assert forall|i: int| 0 <= i < t.len() implies key_lt(#[trigger] t[i].0, s.last().0) by {
            assert(t[i] == s[i]);
        }
        lemma_insert_greatest(t, s.last().0, s.last().1);
        assert(t.push(s.last()) =~= s);
    }
}

/// Whether `a` sorts before `b`.
pub fn str_lt(a: &str, b: &str) -> (r: bool)
    ensures
        r == key_lt(a@, b@),
{
    let x = crate::text::chars_of(a);
    let y = crate::text::chars_of(b);
    let mut i: usize = 0;
    assert(x@.skip(0) =~= x@);
    assert(y@.skip(0) =~= y@);
    while i < x.len() && i < y.len() && x[i] == y[i]
        invariant
            x@ == a@,
            y@ == b@,
            i <= x@.len(),
            i <= y@.len(),
            key_lt(a@, b@) == key_lt(x@.skip(i as int), y@.skip(i as int)),
        decreases x.len() - i,
    {
        assert(x@.skip(i as int).drop_first() =~= x@.skip(i + 1));
        assert(y@.skip(i as int).drop_first() =~= y@.skip(i + 1));
        i = i + 1;
    }
    if i == x.len() {
        i < y.len()
    } else if i == y.len() {
        false
    } else {
        x[i] < y[i]
    }
}

/// The parameters of a property.
#[derive(Debug, PartialEq)]
pub struct Parameters {
    entries: Vec<(String, ParamValue)>,
}

pub open spec fn entry_view(e: (String, ParamValue)) -> (Seq<char>, SpecParamValue) {
    (e.0@, e.1@)
}

impl View for Parameters {
    type V = Seq<(Seq<char>, SpecParamValue)>;

    closed spec fn view(&self) -> Seq<(Seq<char>, SpecParamValue)> {
        self.entries@.map_values(|e: (String, ParamValue)| entry_view(e))
    }
}

impl Parameters {
    #[verifier::type_invariant]
    spec fn keys_ascend(self) -> bool {
        params_sorted(self.entries@.map_values(|e: (String, ParamValue)| entry_view(e)))
    }

    /// An empty parameter map.
    pub fn new() -> (r: Self)
        ensures
            r@ == Seq::<(Seq<char>, SpecParamValue)>::empty(),
    {
        let r = Parameters { entries: Vec::new() };
        assert(r@ =~= Seq::<(Seq<char>, SpecParamValue)>::empty());
        r
    }

    /// The number of parameters.
    pub fn len(&self) -> (r: usize)
        ensures
            r == self@.len(),
    {
        self.entries.len()
    }

    /// Whether there is no parameter.
    pub fn is_empty(&self) -> (r: bool)
        ensures
            r == (self@.len() == 0),
    {
        self.entries.len() == 0
    }

    /// The entries, in ascending key order.
    pub fn entries(&self) -> (r: &[(String, ParamValue)])
        ensures
            r@.map_values(|e: (String, ParamValue)| entry_view(e)) == self@,
            params_sorted(self@),
    {
        proof {
            use_type_invariant(self);
        }
        self.entries.as_slice()
    }

    /// The value under `key`.
    pub fn get(&self, key: &str) -> (r: Option<&ParamValue>)
        ensures
            match r {
                Some(p) => param_lookup(self@, key@) == Some(p@),
                None => param_lookup(self@, key@) is None,
            },
    {
        let ghost s = self@;
        let mut i: usize = 0;
        assert(s.skip(0) =~= s);
        while i < self.entries.len()
            invariant
                i <= self.entries@.len(),
                s == self@,
                s.len() == self.entries@.len(),
                forall|k: int| 0 <= k < s.len() ==> #[trigger] s[k] == entry_view(self.entries@[k]),
                param_lookup(s, key@) == param_lookup(s.skip(i as int), key@),
            decreases self.entries.len() - i,
        {
            let e = &self.entries[i];
            assert(s.skip(i as int)[0] == s[i as int]);
            if str_eq(e.0.as_str(), key) {
                return Some(&e.1);
            }
            assert(s.skip(i as int).drop_first() =~= s.skip(i + 1));
            i = i + 1;
        }
        None
    }

    /// Whether there is a value under `key`.
    pub fn contains_key(&self, key: &str) -> (r: bool)
        ensures
            r == (param_lookup(self@, key@) is Some),
    {
        self.get(key).is_some()
    }

    /// Puts `value` under `key`, giving back the value that was there.
    pub fn insert(&mut self, key: String, value: ParamValue) -> (r: Option<ParamValue>)
        ensures
            final(self)@ == param_insert(old(self)@, key@, value@),
            match r {
                Some(p) => param_lookup(old(self)@, key@) == Some(p@),
                None => param_lookup(old(self)@, key@) is None,
            },
    {
        proof {
            use_type_invariant(&*self);
        }
        let ghost s = self@;
        let mut entries: Vec<(String, ParamValue)> = Vec::new();
        std::mem::swap(&mut entries, &mut self.entries);
        let mut i: usize = 0;
        while i < entries.len() && str_lt(entries[i].0.as_str(), key.as_str())
            invariant
                i <= entries@.len(),
                s.len() == entries@.len(),
                forall|k: int| 0 <= k < s.len() ==> #[trigger] s[k] == entry_view(entries@[k]),
                forall|j: int| 0 <= j < i ==> key_lt(#[trigger] s[j].0, key@),
            decreases entries.len() - i,
        {
            i = i + 1;
        }
        proof {
            lemma_insert_prefix(s, key@, value@, i as int);
            lemma_insert_sorted(s, key@, value@);
        }
        let ghost vv = value@;
        if i < entries.len() && str_eq(entries[i].0.as_str(), key.as_str()) {
            proof {
                lemma_insert_found(s, key@, value@, i as int);
            }
            let (_, old_value) = entries.remove(i);
            entries.insert(i, (key, value));
            assert(entries@.map_values(|e: (String, ParamValue)| entry_view(e)) =~= s.take(i as int)
                + seq![(key@, vv)] + s.skip(i + 1));
            self.entries = entries;
            Some(old_value)
        } else {
            proof {
                lemma_insert_new(s, key@, value@, i as int);
            }
            entries.insert(i, (key, value));
            assert(entries@.map_values(|e: (String, ParamValue)| entry_view(e)) =~= s.take(i as int)
                + seq![(key@, vv)] + s.skip(i as int));
            self.entries = entries;
            None
        }
    }
}

proof fn lemma_insert_prefix(
    s: Seq<(Seq<char>, SpecParamValue)>,
    k: Seq<char>,
    v: SpecParamValue,
    i: int,
)
    requires
        0 <= i <= s.len(),
        forall|j: int| 0 <= j < i ==> key_lt(#[trigger] s[j].0, k),
    ensures
        param_insert(s, k, v) == s.take(i) + param_insert(s.skip(i), k, v),
        param_lookup(s, k) == param_lookup(s.skip(i), k),
    decreases i,
{
    if i > 0 {
        let t = s.drop_first();
        assert forall|j: int| 0 <= j < i - 1 implies key_lt(#[trigger] t[j].0, k) by {
            assert(t[j] == s[j + 1]);
        }
        lemma_insert_prefix(t, k, v, i - 1);
        lemma_key_lt_irreflexive(k);
        assert(key_lt(s[0].0, k));
        assert(t.skip(i - 1) =~= s.skip(i));
        assert(s.take(i) =~= seq![s[0]] + t.take(i - 1));
    } else {
        assert(s.skip(0) =~= s);
        assert(s.take(0) + param_insert(s, k, v) =~= param_insert(s, k, v));
    }
}

proof fn lemma_insert_found(s: Seq<(Seq<char>, SpecParamValue)>, k: Seq<char>, v: SpecParamValue, i: int)
    requires
        0 <= i < s.len(),
        s[i].0 == k,
        param_insert(s, k, v) == s.take(i) + param_insert(s.skip(i), k, v),
        param_lookup(s, k) == param_lookup(s.skip(i), k),
    ensures
        param_insert(s, k, v) == s.take(i) + seq![(k, v)] + s.skip(i + 1),
        param_lookup(s, k) == Some(s[i].1),
{
    let t = s.skip(i);
    assert(t[0] == s[i]);
    lemma_key_lt_irreflexive(k);
    assert(t.drop_first() =~= s.skip(i + 1));
}

proof fn lemma_insert_new(s: Seq<(Seq<char>, SpecParamValue)>, k: Seq<char>, v: SpecParamValue, i: int)
    requires
        0 <= i <= s.len(),
        params_sorted(s),
        i < s.len() ==> !key_lt(s[i].0, k) && s[i].0 != k,
        param_insert(s, k, v) == s.take(i) + param_insert(s.skip(i), k, v),
        param_lookup(s, k) == param_lookup(s.skip(i), k),
        forall|j: int| 0 <= j < i ==> key_lt(#[trigger] s[j].0, k),
    ensures
        param_insert(s, k, v) == s.take(i) + seq![(k, v)] + s.skip(i),
        param_lookup(s, k) is None,
{
    let t = s.skip(i);
    if i < s.len() {
        assert(t[0] == s[i]);
        lemma_key_lt_total(t[0].0, k);
        assert(param_insert(t, k, v) == seq![(k, v)] + t);
        assert forall|m: int| 0 <= m < t.len() implies #[trigger] t[m].0 != k by {
            if m > 0 {
                assert(t[m] == s[i + m]);
                lemma_key_lt_transitive(k, t[0].0, t[m].0);
                lemma_key_lt_irreflexive(k);
            }
        }
        lemma_lookup_absent(t, k);
    } else {
        assert(t.len() == 0);
        assert(param_insert(t, k, v) =~= seq![(k, v)]);
        assert(seq![(k, v)] + t =~= seq![(k, v)]);
    }
}

impl Clone for Parameters {
    fn clone(&self) -> (r: Self)
        ensures
            r@ == self@,
    {
        proof {
            use_type_invariant(self);
        }
        let ghost s = self@;
        let mut entries: Vec<(String, ParamValue)> = Vec::new();
        let mut i: usize = 0;
        while i < self.entries.len()
            invariant
                i <= self.entries@.len(),
                s == self@,
                s.len() == self.entries@.len(),
                forall|k: int| 0 <= k < s.len() ==> #[trigger] s[k] == entry_view(self.entries@[k]),
                entries@.len() == i,
                forall|k: int| 0 <= k < i ==> #[trigger] entry_view(entries@[k]) == s[k],
            decreases self.entries.len() - i,
        {
            let e = &self.entries[i];
            let k = crate::text::owned(e.0.as_str());
            let v = e.1.copy();
            entries.push((k, v));
            i = i + 1;
        }
        assert(entries@.map_values(|e: (String, ParamValue)| entry_view(e)) =~= s);
        Parameters { entries }
    }
}

proof fn lemma_lookup_absent(s: Seq<(Seq<char>, SpecParamValue)>, k: Seq<char>)
    requires
        forall|i: int| 0 <= i < s.len() ==> #[trigger] s[i].0 != k,
    ensures
        param_lookup(s, k) is None,
    decreases s.len(),
{
    if s.len() > 0 {
        let t = s.drop_first();
        assert forall|i: int| 0 <= i < t.len() implies #[trigger] t[i].0 != k by {
            assert(t[i] == s[i + 1]);
        }
        lemma_lookup_absent(t, k);
    }
}

} // verus!
