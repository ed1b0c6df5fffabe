//! Tables: maps and sets in key order.
//!
//! A table keeps its keys strictly increasing, so that what it holds can be
//! listed in one way only.
use crate::text::{
    before, increasing, is_before, lemma_before_irreflexive, lemma_before_total,
    lemma_before_transitive, lemma_increasing_unique, lemma_views_push, same, views,
};
use vstd::prelude::*;

verus! {

/// The increasing listing of a set of names.
pub open spec fn sorted_set(names: Set<Seq<char>>) -> Seq<Seq<char>> {
    choose|s: Seq<Seq<char>>| increasing(s) && s.to_set() == names
}

/// The increasing listing of the keys of a map.
pub open spec fn sorted_keys<V>(m: Map<Seq<char>, V>) -> Seq<Seq<char>> {
    sorted_set(m.dom())
}

/// The values of a map, in the order of their keys.
pub open spec fn sorted_values<V>(m: Map<Seq<char>, V>) -> Seq<V> {
    sorted_keys(m).map_values(|k: Seq<char>| m[k])
}

/// An increasing listing of a set is the one that [`sorted_set`] names.
pub proof fn lemma_sorted_set(names: Set<Seq<char>>, s: Seq<Seq<char>>)
    requires
        increasing(s),
        s.to_set() == names,
    ensures
        s == sorted_set(names),
{
    let t = sorted_set(names);
    assert(increasing(t) && t.to_set() == names);
    assert forall|x: Seq<char>| s.contains(x) <==> t.contains(x) by {
        assert(s.to_set().contains(x) <==> t.to_set().contains(x));
    }
    lemma_increasing_unique(s, t);
}

/// A name finds its place in an increasing listing.
proof fn lemma_place(s: Seq<Seq<char>>, k: Seq<char>) -> (t: Seq<Seq<char>>)
    requires
        increasing(s),
        !s.contains(k),
    ensures
        increasing(t),
        t.to_set() == s.to_set().insert(k),
    decreases s.len(),
{
    if s.len() == 0 {
        let t = seq![k];
        assert(t[0] == k);
        assert(t.to_set() =~= s.to_set().insert(k));
        t
    } else if before(s.last(), k) {
        let n = s.len() - 1;
        let t = s.push(k);
        assert forall|i: int, j: int| 0 <= i < j < t.len() implies before(t[i], t[j]) by {
            if j == s.len() && i < n {
                lemma_before_transitive(s[i], s[n], k);
            }
        }
        assert(t.to_set() =~= s.to_set().insert(k)) by {
            assert forall|x: Seq<char>| s.contains(x) || x == k implies t.contains(x) by {
                if s.contains(x) {
                    let i = s.index_of(x);
                    assert(t[i] == x);
                } else {
                    assert(t[s.len() as int] == x);
                }
            }
        }
        t
    } else {
        let n = s.len() - 1;
        lemma_before_total(s.last(), k);
        assert(s.contains(s[n]));
        let d = s.drop_last();
        assert(!d.contains(k)) by {
            if d.contains(k) {
                let i = d.index_of(k);
                assert(s[i] == k);
            }
        }
        let u = lemma_place(d, k);
        let t = u.push(s.last());
        assert forall|i: int| 0 <= i < u.len() implies before(u[i], s[n]) by {
            assert(u.contains(u[i]));
            assert(u.to_set().contains(u[i]));
            if u[i] != k {
                assert(d.to_set().contains(u[i]));
                let j = d.index_of(u[i]);
                assert(before(s[j], s[n]));
            }
        }
        assert(t.to_set() =~= s.to_set().insert(k)) by {
            assert forall|x: Seq<char>| t.contains(x) <==> (s.contains(x) || x == k) by {
                if t.contains(x) {
                    let i = t.index_of(x);
                    if i < u.len() {
                        assert(u.contains(x));
                        assert(u.to_set().contains(x));
                        if x != k {
                            assert(d.to_set().contains(x));
                            let j = d.index_of(x);
                            assert(s[j] == x);
                        }
                    } else {
                        assert(s[n] == x);
                    }
                }
                if s.contains(x) || x == k {
                    if x == s.last() {
                        assert(t[u.len() as int] == x);
                    } else {
                        if x != k {
                            let j = s.index_of(x);
                            assert(d[j] == x);
                            assert(d.to_set().contains(x));
                        }
                        assert(u.to_set().contains(x));
                        let i = u.index_of(x);
                        assert(t[i] == x);
                    }
                }
            }
        }
        t
    }
}

/// Every finite set of names has an increasing listing.
pub proof fn lemma_sorted(names: Set<Seq<char>>)
    requires
        names.finite(),
    ensures
        increasing(sorted_set(names)),
        sorted_set(names).to_set() == names,
{
    let s = lemma_listing_of(names);
    assert(increasing(s) && s.to_set() == names);
}

proof fn lemma_listing_of(names: Set<Seq<char>>) -> (s: Seq<Seq<char>>)
    requires
        names.finite(),
    ensures
        increasing(s),
        s.to_set() == names,
    decreases names.len(),
{
    if names.len() == 0 {
        let s = Seq::<Seq<char>>::empty();
        assert(s.to_set() =~= names);
        s
    } else {
        let k = names.choose();
        let u = lemma_listing_of(names.remove(k));
        if u.contains(k) {
            assert(u.to_set().contains(k));
        }
        let s = lemma_place(u, k);
        assert(s.to_set() =~= names);
        s
    }
}

/// An increasing listing has as many members as its set.
pub proof fn lemma_increasing_len(s: Seq<Seq<char>>)
    requires
        increasing(s),
    ensures
        s.to_set().len() == s.len(),
        s.to_set().finite(),
{
    assert(s.no_duplicates()) by {
        assert forall|i: int, j: int| 0 <= i < s.len() && 0 <= j < s.len() && i != j implies s[i]
            != s[j] by {
            lemma_before_irreflexive(s[i]);
            if i < j {
                assert(before(s[i], s[j]));
            } else {
                assert(before(s[j], s[i]));
            }
        }
    }
    s.unique_seq_to_set();
    vstd::seq_lib::seq_to_set_is_finite(s);
}

spec fn keys_of<T>(s: Seq<(String, T)>) -> Seq<Seq<char>> {
    Seq::new(s.len(), |i: int| s[i].0@)
}

/// A map from names to values.
pub struct StrMap<T> {
    entries: Vec<(String, T)>,
}

impl<T: View> View for StrMap<T> {
    type V = Map<Seq<char>, T::V>;

    closed spec fn view(&self) -> Map<Seq<char>, T::V> {
        let s = self.entries@;
        Map::new(
            |k: Seq<char>| keys_of(s).contains(k),
            |k: Seq<char>| s[keys_of(s).index_of(k)].1@,
        )
    }
}

proof fn lemma_index_of(s: Seq<Seq<char>>, i: int)
    requires
        increasing(s),
        0 <= i < s.len(),
    ensures
        s.index_of(s[i]) == i,
{
    let j = s.index_of(s[i]);
    assert(0 <= j < s.len() && s[j] == s[i]);
    lemma_before_irreflexive(s[i]);
    if j < i {
        assert(before(s[j], s[i]));
    }
    if i < j {
        assert(before(s[i], s[j]));
    }
}

proof fn lemma_entry<T: View>(m: StrMap<T>, i: int)
    requires
        increasing(keys_of(m.entries@)),
        0 <= i < m.entries@.len(),
    ensures
        m@.dom().contains(m.entries@[i].0@),
        m@[m.entries@[i].0@] == m.entries@[i].1@,
{
    let ks = keys_of(m.entries@);
    lemma_index_of(ks, i);
    assert(ks[i] == m.entries@[i].0@);
    assert(ks.contains(ks[i]));
}

impl<T> StrMap<T> {
    #[verifier::type_invariant]
    spec fn ordered(self) -> bool {
        increasing(keys_of(self.entries@))
    }
}

impl<T: View> StrMap<T> {
    /// A map that holds nothing.
    pub fn new() -> (r: Self)
        ensures
            r@ == Map::<Seq<char>, T::V>::empty(),
    {
        let r = StrMap { entries: Vec::new() };
        assert(r@ =~= Map::<Seq<char>, T::V>::empty());
        r
    }

    /// How many keys there are.
    pub fn len(&self) -> (n: usize)
        ensures
            n == self@.dom().len(),
            self@.dom().finite(),
            n == sorted_keys(self@).len(),
            increasing(sorted_keys(self@)),
            sorted_keys(self@).to_set() == self@.dom(),
    {
        proof {
            use_type_invariant(self);
            self.lemma_listing();
            lemma_increasing_len(keys_of(self.entries@));
        }
        self.entries.len()
    }

    proof fn lemma_listing(&self)
        requires
            self.ordered(),
        ensures
            keys_of(self.entries@) == sorted_keys(self@),
            keys_of(self.entries@).to_set() == self@.dom(),
    {
        assert(keys_of(self.entries@).to_set() =~= self@.dom());
        lemma_sorted_set(self@.dom(), keys_of(self.entries@));
    }

    /// The key and the value at a position of the listing.
    pub fn at(&self, i: usize) -> (r: (&String, &T))
        requires
            i < sorted_keys(self@).len(),
        ensures
            r.0@ == sorted_keys(self@)[i as int],
            self@.dom().contains(r.0@),
            r.1@ == self@[r.0@],
    {
        proof {
            use_type_invariant(self);
            self.lemma_listing();
            lemma_entry(*self, i as int);
        }
        let e = &self.entries[i];
        (&e.0, &e.1)
    }

    /// The position of the first key that does not come before `k`.
    fn seek(&self, k: &str) -> (p: usize)
        ensures
            p <= self.entries@.len(),
            forall|j: int| 0 <= j < p ==> before(self.entries@[j].0@, k@),
            p < self.entries@.len() ==> !before(self.entries@[p as int].0@, k@),
            increasing(keys_of(self.entries@)),
    {
        proof {
            use_type_invariant(self);
        }
        let mut p: usize = 0;
        while p < self.entries.len() && is_before(self.entries[p].0.as_str(), k)
            invariant
                p <= self.entries@.len(),
                forall|j: int| 0 <= j < p ==> before(self.entries@[j].0@, k@),
            decreases self.entries@.len() - p,
        {
            p += 1;
        }
        p
    }

    proof fn lemma_absent(&self, k: Seq<char>, p: int)
        requires
            increasing(keys_of(self.entries@)),
            0 <= p <= self.entries@.len(),
            forall|j: int| 0 <= j < p ==> before(self.entries@[j].0@, k),
            p < self.entries@.len() ==> !before(self.entries@[p].0@, k) && self.entries@[p].0@ != k,
        ensures
            !self@.dom().contains(k),
            forall|j: int| p <= j < self.entries@.len() ==> before(k, self.entries@[j].0@),
    {
        let ks = keys_of(self.entries@);
        assert forall|j: int| p <= j < self.entries@.len() implies before(
            k,
            self.entries@[j].0@,
        ) by {
            lemma_before_total(k, ks[p]);
            if j > p {
                assert(before(ks[p], ks[j]));
                lemma_before_transitive(k, ks[p], ks[j]);
            }
        }
        if ks.contains(k) {
            let j = choose|j: int| 0 <= j < ks.len() && ks[j] == k;
            lemma_before_irreflexive(k);
        }
    }

    /// The value of a key.
    pub fn get(&self, k: &str) -> (r: Option<&T>)
        ensures
            match r {
                Some(v) => self@.dom().contains(k@) && v@ == self@[k@],
                None => !self@.dom().contains(k@),
            },
    {
        let p = self.seek(k);
        if p < self.entries.len() && same(self.entries[p].0.as_str(), k) {
            proof {
                lemma_entry(*self, p as int);
            }
            Some(&self.entries[p].1)
        } else {
            proof {
                self.lemma_absent(k@, p as int);
            }
            None
        }
    }

    /// Whether a key is there.
    pub fn contains(&self, k: &str) -> (r: bool)
        ensures
            r == self@.dom().contains(k@),
    {
        self.get(k).is_some()
    }

    /// Takes a key out.
    pub fn remove(&mut self, k: &str) -> (r: Option<T>)
        ensures
            final(self)@ == old(self)@.remove(k@),
            match r {
                Some(v) => old(self)@.dom().contains(k@) && v@ == old(self)@[k@],
                None => !old(self)@.dom().contains(k@),
            },
    {
        let p = self.seek(k);
        if p < self.entries.len() && same(self.entries[p].0.as_str(), k) {
            let ghost o = *self;
            let ghost ks = keys_of(o.entries@);
            proof {
                lemma_entry(*self, p as int);
                let s2 = o.entries@.remove(p as int);
                assert forall|i: int, j: int| 0 <= i < j < s2.len() implies before(
                    keys_of(s2)[i],
                    keys_of(s2)[j],
                ) by {
                    let i0 = if i < p { i } else { i + 1 };
                    let j0 = if j < p { j } else { j + 1 };
                    assert(before(ks[i0], ks[j0]));
                }
            }
            let mut es: Vec<(String, T)> = Vec::new();
            std::mem::swap(&mut self.entries, &mut es);
            let e = es.remove(p);
            self.entries = es;
            proof {
                let n = *self;
                let kn = keys_of(n.entries@);
                assert forall|x: Seq<char>| #[trigger] n@.dom().contains(x) <==> o@.remove(
                    k@,
                ).dom().contains(x) by {
                    if kn.contains(x) {
                        let i = choose|i: int| 0 <= i < kn.len() && kn[i] == x;
                        let i0 = if i < p { i } else { i + 1 };
                        assert(ks[i0] == x);
                        lemma_before_irreflexive(x);
                        assert(before(ks[i0], ks[p as int]) || before(ks[p as int], ks[i0]));
                    }
                    if ks.contains(x) && x != k@ {
                        let i = choose|i: int| 0 <= i < ks.len() && ks[i] == x;
                        let i0 = if i < p { i } else { i - 1 };
                        assert(kn[i0] == x);
                    }
                }
                assert forall|x: Seq<char>| #[trigger] n@.dom().contains(x) implies n@[x] == o@[x] by {
                    let i = choose|i: int| 0 <= i < kn.len() && kn[i] == x;
                    let i0 = if i < p { i } else { i + 1 };
                    lemma_entry(n, i);
                    lemma_entry(o, i0);
                    assert(ks[i0] == x);
                }
                assert(n@ =~= o@.remove(k@));
            }
            Some(e.1)
        } else {
            proof {
                self.lemma_absent(k@, p as int);
                assert(self@ =~= self@.remove(k@));
            }
            None
        }
    }

    /// The keys, in order.
    pub fn keys(&self) -> (r: Vec<String>)
        ensures
            views(r@) == sorted_keys(self@),
            increasing(views(r@)),
            views(r@).to_set() == self@.dom(),
    {
        let n = self.len();
        let mut r: Vec<String> = Vec::new();
        let mut i: usize = 0;
        while i < n
            invariant
                i <= n == sorted_keys(self@).len(),
                views(r@) =~= sorted_keys(self@).take(i as int),
            decreases n - i,
        {
            let k = self.at(i).0.clone();
            proof {
                lemma_views_push(r@, k);
            }
            r.push(k);
            i += 1;
            assert(sorted_keys(self@).take(i as int) =~= sorted_keys(self@).take(i as int - 1).push(
                sorted_keys(self@)[i as int - 1],
            ));
        }
        assert(sorted_keys(self@).take(n as int) =~= sorted_keys(self@));
        r
    }

    /// Gives a key a value.
    pub fn insert(&mut self, k: String, v: T)
        ensures
            final(self)@ == old(self)@.insert(k@, v@),
    {
        let ghost o0 = *self;
        let gone = self.remove(k.as_str());
        let p = self.seek(k.as_str());
        let ghost o = *self;
        let ghost ks = keys_of(o.entries@);
        let ghost s2 = o.entries@.insert(p as int, (k, v));
        proof {
            if p < o.entries@.len() && o.entries@[p as int].0@ == k@ {
                lemma_entry(o, p as int);
            }
            self.lemma_absent(k@, p as int);
            assert forall|i: int, j: int| 0 <= i < j < s2.len() implies before(
                keys_of(s2)[i],
                keys_of(s2)[j],
            ) by {
                if i == p {
                    assert(keys_of(s2)[j] == o.entries@[j - 1].0@);
                } else if j == p {
                    assert(keys_of(s2)[i] == o.entries@[i].0@);
                } else {
                    let i0 = if i < p { i } else { i - 1 };
                    let j0 = if j < p { j } else { j - 1 };
                    assert(before(ks[i0], ks[j0]));
                }
            }
        }
        let ghost kv = k@;
        let ghost vv = v@;
        let mut es: Vec<(String, T)> = Vec::new();
        std::mem::swap(&mut self.entries, &mut es);
        es.insert(p, (k, v));
        self.entries = es;
        proof {
            let n = *self;
            let kn = keys_of(n.entries@);
            lemma_entry(n, p as int);
            assert forall|x: Seq<char>| #[trigger] n@.dom().contains(x) <==> o@.insert(
                kv,
                vv,
            ).dom().contains(x) by {
                if kn.contains(x) && x != kv {
                    let i = choose|i: int| 0 <= i < kn.len() && kn[i] == x;
                    let i0 = if i < p { i } else { i - 1 };
                    assert(ks[i0] == x);
                }
                if ks.contains(x) {
                    let i = choose|i: int| 0 <= i < ks.len() && ks[i] == x;
                    let i0 = if i < p { i } else { i + 1 };
                    assert(kn[i0] == x);
                }
            }
            assert forall|x: Seq<char>| #[trigger] n@.dom().contains(x) implies n@[x] == o@.insert(
                kv,
                vv,
            )[x] by {
                let i = choose|i: int| 0 <= i < kn.len() && kn[i] == x;
                lemma_entry(n, i);
                if i != p {
                    let i0 = if i < p { i } else { i - 1 };
                    lemma_entry(o, i0);
                    assert(ks[i0] == x);
                }
            }
            assert(n@ =~= o@.insert(kv, vv));
            assert(n@ =~= o0@.insert(kv, vv));
        }
    }
}

impl<T: View> StrMap<T> {
    /// Takes some keys out.
    pub fn remove_all(&mut self, doomed: &Vec<String>)
        ensures
            final(self)@ == old(self)@.remove_keys(views(doomed@).to_set()),
    {
        let ghost o = self@;
        let ghost ds = views(doomed@);
        let mut i: usize = 0;
        assert(self@ =~= o.remove_keys(ds.take(0).to_set()));
        while i < doomed.len()
            invariant
                i <= doomed@.len(),
                ds == views(doomed@),
                self@ == o.remove_keys(ds.take(i as int).to_set()),
            decreases doomed@.len() - i,
        {
            let gone = self.remove(doomed[i].as_str());
            proof {
                let t0 = ds.take(i as int);
                let t1 = ds.take(i as int + 1);
                assert(t1 =~= t0.push(ds[i as int]));
                assert forall|k: Seq<char>| t1.to_set().contains(k) <==> t0.to_set().contains(k) || k
                    == ds[i as int] by {
                    if t0.contains(k) {
                        let j = choose|j: int| 0 <= j < t0.len() && t0[j] == k;
                        assert(t1[j] == k);
                    }
                    assert(t1[i as int] == ds[i as int]);
                    if t1.contains(k) && k != ds[i as int] {
                        let j = choose|j: int| 0 <= j < t1.len() && t1[j] == k;
                        assert(t0[j] == k);
                    }
                }
                assert(self@ =~= o.remove_keys(t1.to_set()));
            }
            i += 1;
        }
        assert(ds.take(ds.len() as int) =~= ds);
    }
}

/// A set of names.
pub struct StrSet {
    names: StrMap<()>,
}

impl View for StrSet {
    type V = Set<Seq<char>>;

    closed spec fn view(&self) -> Set<Seq<char>> {
        self.names@.dom()
    }
}

impl StrSet {
    /// A set that holds nothing.
    pub fn new() -> (r: Self)
        ensures
            r@ == Set::<Seq<char>>::empty(),
    {
        let r = StrSet { names: StrMap::new() };
        assert(r@ =~= Set::<Seq<char>>::empty());
        r
    }

    /// Whether a name is in the set.
    pub fn contains(&self, name: &str) -> (r: bool)
        ensures
            r == self@.contains(name@),
    {
        self.names.contains(name)
    }

    /// Adds a name.
    pub fn insert(&mut self, name: &str)
        ensures
            final(self)@ == old(self)@.insert(name@),
    {
        self.names.insert(name.to_owned(), ());
        assert(self@ =~= old(self)@.insert(name@));
    }

    /// Takes a name out.
    pub fn remove(&mut self, name: &str)
        ensures
            final(self)@ == old(self)@.remove(name@),
    {
        let gone = self.names.remove(name);
        assert(self@ =~= old(self)@.remove(name@));
    }

    /// The names, in order, each once.
    pub fn list(&self) -> (r: Vec<String>)
        ensures
            views(r@) == sorted_set(self@),
            increasing(views(r@)),
            views(r@).to_set() == self@,
    {
        self.names.keys()
    }
}

/// Strictly increasing numbers.
pub open spec fn id_increasing(s: Seq<u64>) -> bool {
    forall|i: int, j: int| 0 <= i < j < s.len() ==> s[i] < s[j]
}

/// The increasing listing of a set of numbers.
pub open spec fn sorted_id_set(ids: Set<u64>) -> Seq<u64> {
    choose|s: Seq<u64>| id_increasing(s) && s.to_set() == ids
}

/// The increasing listing of the numbers that key a map.
pub open spec fn sorted_ids<V>(m: Map<u64, V>) -> Seq<u64> {
    sorted_id_set(m.dom())
}

/// The values of a map, in the order of their numbers.
pub open spec fn id_sorted_values<V>(m: Map<u64, V>) -> Seq<V> {
    sorted_ids(m).map_values(|k: u64| m[k])
}

/// A set of numbers has one increasing listing.
pub proof fn lemma_ids_unique(a: Seq<u64>, b: Seq<u64>)
    requires
        id_increasing(a),
        id_increasing(b),
        forall|x: u64| a.contains(x) <==> b.contains(x),
    ensures
        a == b,
    decreases a.len(),
{
    if a.len() == 0 {
        if b.len() > 0 {
            assert(b.contains(b[0]));
        }
        assert(a =~= b);
    } else {
        assert(a.contains(a.last()));
        assert(b.contains(b.last()));
        let i = choose|i: int| 0 <= i < b.len() && b[i] == a.last();
        let j = choose|j: int| 0 <= j < a.len() && a[j] == b.last();
        assert(a.last() == b.last());
        let a2 = a.drop_last();
        let b2 = b.drop_last();
        assert forall|x: u64| a2.contains(x) <==> b2.contains(x) by {
            if a2.contains(x) {
                let k = choose|k: int| 0 <= k < a2.len() && a2[k] == x;
                assert(a[k] == x);
                assert(a.contains(x));
                let m = choose|m: int| 0 <= m < b.len() && b[m] == x;
                assert(b2[m] == x);
            }
            if b2.contains(x) {
                let k = choose|k: int| 0 <= k < b2.len() && b2[k] == x;
                assert(b[k] == x);
                assert(b.contains(x));
                let m = choose|m: int| 0 <= m < a.len() && a[m] == x;
                assert(a2[m] == x);
            }
        }
        lemma_ids_unique(a2, b2);
        assert(a =~= a2.push(a.last()));
        assert(b =~= b2.push(b.last()));
    }
}

/// An increasing listing of a set of numbers is the one that [`sorted_id_set`] names.
pub proof fn lemma_sorted_id_set(ids: Set<u64>, s: Seq<u64>)
    requires
        id_increasing(s),
        s.to_set() == ids,
    ensures
        s == sorted_id_set(ids),
{
    let t = sorted_id_set(ids);
    assert(id_increasing(t) && t.to_set() == ids);
    assert forall|x: u64| s.contains(x) <==> t.contains(x) by {
        assert(s.to_set().contains(x) <==> t.to_set().contains(x));
    }
    lemma_ids_unique(s, t);
}

/// A number finds its place in an increasing listing.
proof fn lemma_id_place(s: Seq<u64>, k: u64) -> (t: Seq<u64>)
    requires
        id_increasing(s),
        !s.contains(k),
    ensures
        id_increasing(t),
        t.to_set() == s.to_set().insert(k),
    decreases s.len(),
{
    if s.len() == 0 || s.last() < k {
        let t = s.push(k);
        assert(t.to_set() =~= s.to_set().insert(k)) by {
            assert forall|x: u64| s.contains(x) || x == k implies t.contains(x) by {
                if s.contains(x) {
                    assert(t[s.index_of(x)] == x);
                } else {
                    assert(t[s.len() as int] == x);
                }
            }
        }
        t
    } else {
        let n = s.len() - 1;
        let d = s.drop_last();
        assert(s.contains(s[n]));
        assert(!d.contains(k)) by {
            if d.contains(k) {
                assert(s[d.index_of(k)] == k);
            }
        }
        let u = lemma_id_place(d, k);
        let t = u.push(s.last());
        assert forall|i: int| 0 <= i < u.len() implies #[trigger] u[i] < s.last() by {
            assert(u.to_set().contains(u[i]));
            if u[i] != k {
                assert(d.to_set().contains(u[i]));
                assert(s[d.index_of(u[i])] == u[i]);
            }
        }
        assert(t.to_set() =~= s.to_set().insert(k)) by {
            assert forall|x: u64| t.contains(x) <==> (s.contains(x) || x == k) by {
                if t.contains(x) {
                    let i = t.index_of(x);
                    if i < u.len() {
                        assert(u.to_set().contains(u[i]));
                        if x != k {
                            assert(d.to_set().contains(x));
                            assert(s[d.index_of(x)] == x);
                        }
                    }
                }
                if s.contains(x) || x == k {
                    if x == s.last() {
                        assert(t[u.len() as int] == x);
                    } else {
                        if x != k {
                            assert(d[s.index_of(x)] == x);
                            assert(d.to_set().contains(x));
                        }
                        assert(u.to_set().contains(x));
                        assert(t[u.index_of(x)] == x);
                    }
                }
            }
        }
        t
    }
}

proof fn lemma_id_listing_of(ids: Set<u64>) -> (s: Seq<u64>)
    requires
        ids.finite(),
    ensures
        id_increasing(s),
        s.to_set() == ids,
    decreases ids.len(),
{
    if ids.len() == 0 {
        let s = Seq::<u64>::empty();
        assert(s.to_set() =~= ids);
        s
    } else {
        let k = ids.choose();
        let u = lemma_id_listing_of(ids.remove(k));
        if u.contains(k) {
            assert(u.to_set().contains(k));
        }
        let s = lemma_id_place(u, k);
        assert(s.to_set() =~= ids);
        s
    }
}

/// Every finite set of numbers has an increasing listing.
pub proof fn lemma_id_sorted(ids: Set<u64>)
    requires
        ids.finite(),
    ensures
        id_increasing(sorted_id_set(ids)),
        sorted_id_set(ids).to_set() == ids,
{
    let s = lemma_id_listing_of(ids);
    assert(id_increasing(s) && s.to_set() == ids);
}

proof fn lemma_id_increasing_len(s: Seq<u64>)
    requires
        id_increasing(s),
    ensures
        s.to_set().len() == s.len(),
        s.to_set().finite(),
{
    assert(s.no_duplicates());
    s.unique_seq_to_set();
    vstd::seq_lib::seq_to_set_is_finite(s);
}

spec fn ids_of<T>(s: Seq<(u64, T)>) -> Seq<u64> {
    Seq::new(s.len(), |i: int| s[i].0)
}

/// A map from numbers to values.
pub struct IdMap<T> {
    entries: Vec<(u64, T)>,
}

impl<T: View> View for IdMap<T> {
    type V = Map<u64, T::V>;

    closed spec fn view(&self) -> Map<u64, T::V> {
        let s = self.entries@;
        Map::new(
            |k: u64| ids_of(s).contains(k),
            |k: u64| s[ids_of(s).index_of(k)].1@,
        )
    }
}

proof fn lemma_id_index(s: Seq<u64>, i: int)
    requires
        id_increasing(s),
        0 <= i < s.len(),
    ensures
        s.index_of(s[i]) == i,
{
    let j = s.index_of(s[i]);
    assert(0 <= j < s.len() && s[j] == s[i]);
    if j < i {
        assert((s[j] < s[i]));
    }
    if i < j {
        assert((s[i] < s[j]));
    }
}

proof fn lemma_id_entry<T: View>(m: IdMap<T>, i: int)
    requires
        id_increasing(ids_of(m.entries@)),
        0 <= i < m.entries@.len(),
    ensures
        m@.dom().contains(m.entries@[i].0),
        m@[m.entries@[i].0] == m.entries@[i].1@,
{
    let ks = ids_of(m.entries@);
    lemma_id_index(ks, i);
    assert(ks[i] == m.entries@[i].0);
    assert(ks.contains(ks[i]));
}

impl<T> IdMap<T> {
    #[verifier::type_invariant]
    spec fn ordered(self) -> bool {
        id_increasing(ids_of(self.entries@))
    }
}

impl<T: View> IdMap<T> {
    /// A map that holds nothing.
    pub fn new() -> (r: Self)
        ensures
            r@ == Map::<u64, T::V>::empty(),
    {
        let r = IdMap { entries: Vec::new() };
        assert(r@ =~= Map::<u64, T::V>::empty());
        r
    }

    /// How many keys there are.
    pub fn len(&self) -> (n: usize)
        ensures
            n == self@.dom().len(),
            self@.dom().finite(),
            n == sorted_ids(self@).len(),
            id_increasing(sorted_ids(self@)),
            sorted_ids(self@).to_set() == self@.dom(),
    {
        proof {
            use_type_invariant(self);
            self.lemma_listing();
            lemma_id_increasing_len(ids_of(self.entries@));
        }
        self.entries.len()
    }

    proof fn lemma_listing(&self)
        requires
            self.ordered(),
        ensures
            ids_of(self.entries@) == sorted_ids(self@),
            ids_of(self.entries@).to_set() == self@.dom(),
    {
        assert(ids_of(self.entries@).to_set() =~= self@.dom());
        lemma_sorted_id_set(self@.dom(), ids_of(self.entries@));
    }

    /// The key and the value at a position of the listing.
    pub fn at(&self, i: usize) -> (r: (u64, &T))
        requires
            i < sorted_ids(self@).len(),
        ensures
            r.0 == sorted_ids(self@)[i as int],
            self@.dom().contains(r.0),
            r.1@ == self@[r.0],
    {
        proof {
            use_type_invariant(self);
            self.lemma_listing();
            lemma_id_entry(*self, i as int);
        }
        let e = &self.entries[i];
        (e.0, &e.1)
    }

    /// The position of the first key that does not come before `k`.
    fn seek(&self, k: u64) -> (p: usize)
        ensures
            p <= self.entries@.len(),
            forall|j: int| 0 <= j < p ==> (self.entries@[j].0 < k),
            p < self.entries@.len() ==> !(self.entries@[p as int].0 < k),
            id_increasing(ids_of(self.entries@)),
    {
        proof {
            use_type_invariant(self);
        }
        let mut p: usize = 0;
        while p < self.entries.len() && self.entries[p].0 < k
            invariant
                p <= self.entries@.len(),
                forall|j: int| 0 <= j < p ==> (self.entries@[j].0 < k),
            decreases self.entries@.len() - p,
        {
            p += 1;
        }
        p
    }

    proof fn lemma_absent(&self, k: u64, p: int)
        requires
            id_increasing(ids_of(self.entries@)),
            0 <= p <= self.entries@.len(),
            forall|j: int| 0 <= j < p ==> (self.entries@[j].0 < k),
            p < self.entries@.len() ==> !(self.entries@[p].0 < k) && self.entries@[p].0 != k,
        ensures
            !self@.dom().contains(k),
            forall|j: int| p <= j < self.entries@.len() ==> (k < self.entries@[j].0),
    {
        let ks = ids_of(self.entries@);
        assert forall|j: int| p <= j < self.entries@.len() implies (k < self.entries@[j].0) by {
            if j > p {
                assert((ks[p] < ks[j]));
            }
        }
        if ks.contains(k) {
            let j = choose|j: int| 0 <= j < ks.len() && ks[j] == k;
        }
    }

    /// The value of a key.
    pub fn get(&self, k: u64) -> (r: Option<&T>)
        ensures
            match r {
                Some(v) => self@.dom().contains(k) && v@ == self@[k],
                None => !self@.dom().contains(k),
            },
    {
        let p = self.seek(k);
        if p < self.entries.len() && self.entries[p].0 == k {
            proof {
                lemma_id_entry(*self, p as int);
            }
            Some(&self.entries[p].1)
        } else {
            proof {
                self.lemma_absent(k, p as int);
            }
            None
        }
    }

    /// Whether a key is there.
    pub fn contains(&self, k: u64) -> (r: bool)
        ensures
            r == self@.dom().contains(k),
    {
        self.get(k).is_some()
    }

    /// Takes a key out.
    pub fn remove(&mut self, k: u64) -> (r: Option<T>)
        ensures
            final(self)@ == old(self)@.remove(k),
            match r {
                Some(v) => old(self)@.dom().contains(k) && v@ == old(self)@[k],
                None => !old(self)@.dom().contains(k),
            },
    {
        let p = self.seek(k);
        if p < self.entries.len() && self.entries[p].0 == k {
            let ghost o = *self;
            let ghost ks = ids_of(o.entries@);
            proof {
                lemma_id_entry(*self, p as int);
                let s2 = o.entries@.remove(p as int);
                assert forall|i: int, j: int| 0 <= i < j < s2.len() implies (ids_of(s2)[i] < ids_of(s2)[j]) by {
                    let i0 = if i < p { i } else { i + 1 };
                    let j0 = if j < p { j } else { j + 1 };
                    assert((ks[i0] < ks[j0]));
                }
            }
            let mut es: Vec<(u64, T)> = Vec::new();
            std::mem::swap(&mut self.entries, &mut es);
            let e = es.remove(p);
            self.entries = es;
            proof {
                let n = *self;
                let kn = ids_of(n.entries@);
                assert forall|x: u64| #[trigger] n@.dom().contains(x) <==> o@.remove(
                    k,
                ).dom().contains(x) by {
                    if kn.contains(x) {
                        let i = choose|i: int| 0 <= i < kn.len() && kn[i] == x;
                        let i0 = if i < p { i } else { i + 1 };
                        assert(ks[i0] == x);
                        assert((ks[i0] < ks[p as int]) || (ks[p as int] < ks[i0]));
                    }
                    if ks.contains(x) && x != k {
                        let i = choose|i: int| 0 <= i < ks.len() && ks[i] == x;
                        let i0 = if i < p { i } else { i - 1 };
                        assert(kn[i0] == x);
                    }
                }
                assert forall|x: u64| #[trigger] n@.dom().contains(x) implies n@[x] == o@[x] by {
                    let i = choose|i: int| 0 <= i < kn.len() && kn[i] == x;
                    let i0 = if i < p { i } else { i + 1 };
                    lemma_id_entry(n, i);
                    lemma_id_entry(o, i0);
                    assert(ks[i0] == x);
                }
                assert(n@ =~= o@.remove(k));
            }
            Some(e.1)
        } else {
            proof {
                self.lemma_absent(k, p as int);
                assert(self@ =~= self@.remove(k));
            }
            None
        }
    }

    /// Gives a key a value.
    pub fn insert(&mut self, k: u64, v: T)
        ensures
            final(self)@ == old(self)@.insert(k, v@),
    {
        let ghost o0 = *self;
        let gone = self.remove(k);
        let p = self.seek(k);
        let ghost o = *self;
        let ghost ks = ids_of(o.entries@);
        let ghost s2 = o.entries@.insert(p as int, (k, v));
        proof {
            if p < o.entries@.len() && o.entries@[p as int].0 == k {
                lemma_id_entry(o, p as int);
            }
            self.lemma_absent(k, p as int);
            assert forall|i: int, j: int| 0 <= i < j < s2.len() implies (ids_of(s2)[i] < ids_of(s2)[j]) by {
                if i == p {
                    assert(ids_of(s2)[j] == o.entries@[j - 1].0);
                } else if j == p {
                    assert(ids_of(s2)[i] == o.entries@[i].0);
                } else {
                    let i0 = if i < p { i } else { i - 1 };
                    let j0 = if j < p { j } else { j - 1 };
                    assert((ks[i0] < ks[j0]));
                }
            }
        }
        let ghost kv = k;
        let ghost vv = v@;
        let mut es: Vec<(u64, T)> = Vec::new();
        std::mem::swap(&mut self.entries, &mut es);
        es.insert(p, (k, v));
        self.entries = es;
        proof {
            let n = *self;
            let kn = ids_of(n.entries@);
            lemma_id_entry(n, p as int);
            assert forall|x: u64| #[trigger] n@.dom().contains(x) <==> o@.insert(
                kv,
                vv,
            ).dom().contains(x) by {
                if kn.contains(x) && x != kv {
                    let i = choose|i: int| 0 <= i < kn.len() && kn[i] == x;
                    let i0 = if i < p { i } else { i - 1 };
                    assert(ks[i0] == x);
                }
                if ks.contains(x) {
                    let i = choose|i: int| 0 <= i < ks.len() && ks[i] == x;
                    let i0 = if i < p { i } else { i + 1 };
                    assert(kn[i0] == x);
                }
            }
            assert forall|x: u64| #[trigger] n@.dom().contains(x) implies n@[x] == o@.insert(
                kv,
                vv,
            )[x] by {
                let i = choose|i: int| 0 <= i < kn.len() && kn[i] == x;
                lemma_id_entry(n, i);
                if i != p {
                    let i0 = if i < p { i } else { i - 1 };
                    lemma_id_entry(o, i0);
                    assert(ks[i0] == x);
                }
            }
            assert(n@ =~= o@.insert(kv, vv));
            assert(n@ =~= o0@.insert(kv, vv));
        }
    }
}

/// The same numbers, sorted, each once.
pub fn sorted_numbers(v: &Vec<u64>) -> (r: Vec<u64>)
    ensures
        r@ == sorted_id_set(v@.to_set()),
        id_increasing(r@),
        r@.to_set() == v@.to_set(),
{
    let mut r: Vec<u64> = Vec::new();
    let mut i: usize = 0;
    while i < v.len()
        invariant
            i <= v@.len(),
            id_increasing(r@),
            forall|x: u64| #[trigger] r@.contains(x) <==> v@.take(i as int).contains(x),
        decreases v@.len() - i,
    {
        let n: u64 = v[i];
        let ghost o = r@;
        let mut k: usize = 0;
        while k < r.len() && r[k] < n
            invariant
                k <= r@.len(),
                r@ == o,
                forall|j: int| 0 <= j < k ==> o[j] < n,
            decreases r@.len() - k,
        {
            k += 1;
        }
        if k == r.len() || r[k] != n {
            r.insert(k, n);
        }
        proof {
            let t0 = v@.take(i as int);
            let t1 = v@.take(i as int + 1);
            assert(t1 =~= t0.push(n));
            assert forall|x: u64| #[trigger] r@.contains(x) <==> t1.contains(x) by {
                if o.contains(x) {
                    let m = choose|m: int| 0 <= m < o.len() && o[m] == x;
                    assert(r@ == o || r@[if m < k { m } else { m + 1 }] == x);
                }
                assert(r@[k as int] == n);
                if r@.contains(x) && x != n {
                    let m = choose|m: int| 0 <= m < r@.len() && r@[m] == x;
                    assert(r@ == o || o[if m < k { m } else { m - 1 }] == x);
                }
                if t0.contains(x) {
                    let m = choose|m: int| 0 <= m < t0.len() && t0[m] == x;
                    assert(t1[m] == x);
                }
                assert(t1[i as int] == n);
                if t1.contains(x) && x != n {
                    let m = choose|m: int| 0 <= m < t1.len() && t1[m] == x;
                    assert(t0[m] == x);
                }
            }
        }
        i += 1;
    }
    proof {
        assert(v@.take(v@.len() as int) =~= v@);
        assert forall|x: u64| r@.to_set().contains(x) <==> v@.to_set().contains(x) by {
            assert(r@.contains(x) <==> v@.contains(x));
        }
        assert(r@.to_set() =~= v@.to_set());
        lemma_sorted_id_set(v@.to_set(), r@);
    }
    r
}

} // verus!
