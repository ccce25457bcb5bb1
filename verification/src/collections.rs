//! Small verified building blocks shared by the engine's registries:
//! key listing for integer-keyed hash maps, sums over finite maps and a
//! string-keyed association map.
use std::collections::{HashMap, HashSet};
use std::hash::Hash;
use vstd::prelude::*;
use vstd::std_specs::iter::IteratorSpec;

verus! {

broadcast use vstd::std_specs::hash::group_hash_axioms;

/// Lists the keys of a hash map, each exactly once.
pub fn map_keys<K: Copy + Eq + Hash, V>(m: &HashMap<K, V>) -> (r: Vec<K>)
    requires
        vstd::std_specs::hash::obeys_key_model::<K>(),
    ensures
        r@.no_duplicates(),
        forall|k: K| m@.contains_key(k) <==> r@.contains(k),
        r@.len() == m@.dom().len(),
{
    let ghost ks = vstd::std_specs::hash::spec_keys_iter(m).remaining();
    let mut r: Vec<K> = Vec::new();
    for k in it: m.keys()
        invariant
            it.seq() == ks,
            r@.len() == it.index(),
            forall|i: int| 0 <= i < it.index() ==> r@[i] == *ks[i],
    {
        r.push(*k);
    }
    proof {
        let s = ks.map_values(|p: &K| *p);
        assert(r@ =~= s);
        assert(ks.unref() =~= s);
        assert forall|k: K| m@.contains_key(k) <==> r@.contains(k) by {
            if m@.contains_key(k) {
                assert(ks.unref().to_set().contains(k));
            }
            if r@.contains(k) {
                assert(ks.unref().to_set().contains(k));
            }
        }
    }
    r
}

/// Lists the elements of a hash set, each exactly once.
pub fn set_elements<K: Copy + Eq + Hash>(s: &HashSet<K>) -> (r: Vec<K>)
    requires
        vstd::std_specs::hash::obeys_key_model::<K>(),
    ensures
        r@.no_duplicates(),
        r@.to_set() == s@,
        forall|k: K| s@.contains(k) <==> r@.contains(k),
        r@.len() == s@.len(),
{
    let ghost ks = vstd::std_specs::hash::spec_hash_keys_iter(s).remaining();
    let mut r: Vec<K> = Vec::new();
    for k in it: s.iter()
        invariant
            it.seq() == ks,
            r@.len() == it.index(),
            forall|i: int| 0 <= i < it.index() ==> r@[i] == *ks[i],
    {
        r.push(*k);
    }
    proof {
        let e = ks.map_values(|p: &K| *p);
        assert(r@ =~= e);
        assert(ks.unref() =~= e);
        assert forall|k: K| s@.contains(k) <==> r@.contains(k) by {
            if s@.contains(k) {
                assert(ks.unref().to_set().contains(k));
            }
            if r@.contains(k) {
                assert(ks.unref().to_set().contains(k));
            }
        }
    }
    r
}

/// A hash set holding the same elements as `s`.
pub fn copy_set<K: Copy + Eq + Hash>(s: &HashSet<K>) -> (r: HashSet<K>)
    requires
        vstd::std_specs::hash::obeys_key_model::<K>(),
    ensures
        r@ == s@,
{
    let items = set_elements(s);
    let mut r: HashSet<K> = HashSet::new();
    let mut i: usize = 0;
    while i < items.len()
        invariant
            i <= items@.len(),
            r@ == items@.take(i as int).to_set(),
            vstd::std_specs::hash::obeys_key_model::<K>(),
        decreases items@.len() - i,
    {
        r.insert(items[i]);
        proof {
            lemma_take_push_to_set(items@, i as int);
        }
        i = i + 1;
    }
    proof {
        assert(items@.take(items@.len() as int) =~= items@);
    }
    r
}

/// The elements of the first `k + 1` items are those of the first `k` and item `k`.
pub proof fn lemma_take_push_to_set<A>(s: Seq<A>, k: int)
    requires
        0 <= k < s.len(),
    ensures
        s.take(k + 1).to_set() == s.take(k).to_set().insert(s[k]),
{
    assert(s.take(k + 1) =~= s.take(k).push(s[k]));
    assert forall|x: A| s.take(k + 1).to_set().contains(x) <==> s.take(k).to_set().insert(s[k]).contains(x) by {
        if s.take(k + 1).contains(x) {
            let t = choose|t: int| 0 <= t < k + 1 && #[trigger] s.take(k + 1)[t] == x;
            if t < k {
                assert(s.take(k)[t] == x);
            }
        }
        if s.take(k).contains(x) {
            let t = choose|t: int| 0 <= t < k && #[trigger] s.take(k)[t] == x;
            assert(s.take(k + 1)[t] == x);
        }
        if x == s[k] {
            assert(s.take(k + 1)[k] == x);
        }
    }
    assert(s.take(k + 1).to_set() =~= s.take(k).to_set().insert(s[k]));
}

/// The sum of `f` over the values of a finite map.
pub open spec fn map_sum<K, V>(m: Map<K, V>, f: spec_fn(V) -> nat) -> nat
    decreases m.dom().len(),
    when m.dom().finite()
{
    if m.dom().len() == 0 {
        0
    } else {
        let k = m.dom().choose();
        f(m[k]) + map_sum(m.remove(k), f)
    }
}

/// Taking one key out of a finite map takes its value out of the sum,
/// whichever key the sum itself picked first.
pub proof fn lemma_map_sum_remove<K, V>(m: Map<K, V>, f: spec_fn(V) -> nat, k: K)
    requires
        m.dom().finite(),
        m.contains_key(k),
    ensures
        map_sum(m, f) == f(m[k]) + map_sum(m.remove(k), f),
    decreases m.dom().len(),
{
    assert(m.dom().contains(k));
    assert(m.dom().len() > 0);
    let c = m.dom().choose();
    if c != k {
        let mc = m.remove(c);
        let mk = m.remove(k);
        lemma_map_sum_remove(mc, f, k);
        lemma_map_sum_remove(mk, f, c);
        assert(mc.remove(k) =~= mk.remove(c));
    }
}

/// Inserting a key adds its value to the sum, after taking out the value it replaces.
pub proof fn lemma_map_sum_insert<K, V>(m: Map<K, V>, f: spec_fn(V) -> nat, k: K, v: V)
    requires
        m.dom().finite(),
    ensures
        map_sum(m.insert(k, v), f) == f(v) + map_sum(m.remove(k), f),
{
    let mi = m.insert(k, v);
    lemma_map_sum_remove(mi, f, k);
    assert(mi.remove(k) =~= m.remove(k));
}

/// A map with no keys sums to zero.
pub proof fn lemma_map_sum_empty<K, V>(f: spec_fn(V) -> nat)
    ensures
        map_sum(Map::<K, V>::empty(), f) == 0,
{
    assert(Map::<K, V>::empty().dom() =~= Set::empty());
}

/// Turns a string slice into an owned string with the same characters.
/// Whether two texts are the same.
pub fn same_text(a: &str, b: &str) -> (r: bool)
    ensures
        r == (a@ == b@),
{
    owned(a) == owned(b)
}

pub fn owned(s: &str) -> (r: String)
    ensures
        r@ == s@,
{
    s.to_string()
}

/// What a sequence holds after a push: what it held, and the new item.
pub proof fn lemma_push_contains<A>(s: Seq<A>, a: A, x: A)
    ensures
        s.push(a).contains(x) <==> (s.contains(x) || a == x),
{
    if s.push(a).contains(x) && a != x {
        let i = choose|i: int| 0 <= i < s.push(a).len() && s.push(a)[i] == x;
        assert(s[i] == x);
    }
    if s.contains(x) {
        let i = choose|i: int| 0 <= i < s.len() && s[i] == x;
        assert(s.push(a)[i] == x);
    }
    if a == x {
        assert(s.push(a)[s.len() as int] == x);
    }
}

/// The character sequences of a sequence of strings.
pub open spec fn str_views(v: Seq<String>) -> Seq<Seq<char>> {
    v.map_values(|s: String| s@)
}

/// Whether the character `c` occurs in `s`.
pub fn contains_char(s: &str, c: char) -> (r: bool)
    ensures
        r == s@.contains(c),
{
    let mut found = false;
    for x in it: s.chars()
        invariant
            it.seq() == s@,
            found == (exists|j: int| 0 <= j < it.index() && s@[j] == c),
    {
        if x == c {
            found = true;
        }
    }
    found
}

/// A map from strings to values that keeps its entries in insertion order.
pub struct StrMap<V> {
    entries: Vec<(String, V)>,
}

impl<V> StrMap<V> {
    /// The keys in storage order.
    pub closed spec fn key_seq(&self) -> Seq<Seq<char>> {
        self.entries@.map_values(|e: (String, V)| e.0@)
    }

    /// No key is stored twice.
    pub closed spec fn wf(&self) -> bool {
        self.key_seq().no_duplicates()
    }

    /// The map that the entries stand for.
    pub closed spec fn view(&self) -> Map<Seq<char>, V> {
        Map::new(
            |k: Seq<char>| self.key_seq().contains(k),
            |k: Seq<char>| self.entries@[self.key_seq().index_of(k)].1,
        )
    }

    proof fn lemma_index(&self, i: int)
        requires
            self.wf(),
            0 <= i < self.entries@.len(),
        ensures
            self.view().contains_key(self.entries@[i].0@),
            self.view()[self.entries@[i].0@] == self.entries@[i].1,
            self.key_seq()[i] == self.entries@[i].0@,
    {
        let ks = self.key_seq();
        let k = self.entries@[i].0@;
        assert(ks[i] == k);
        assert(ks.contains(k));
        let j = ks.index_of(k);
        assert(ks[j] == k);
        assert(j == i);
    }

    /// The keys in storage order are the map's keys, each once.
    pub proof fn lemma_keys(&self)
        requires
            self.wf(),
        ensures
            self.key_seq().no_duplicates(),
            forall|k: Seq<char>| self.view().contains_key(k) <==> self.key_seq().contains(k),
            self.key_seq().len() == self.view().len(),
            self.view().dom().finite(),
    {
        self.key_seq().unique_seq_to_set();
        assert(self.view().dom() =~= self.key_seq().to_set());
    }

    /// The key stored at position `i`.
    pub fn key_at(&self, i: usize) -> (r: &String)
        requires
            self.wf(),
            i < self.key_seq().len(),
        ensures
            r@ == self.key_seq()[i as int],
    {
        &self.entries[i].0
    }

    /// The value stored at position `i`.
    pub fn value_at(&self, i: usize) -> (r: &V)
        requires
            self.wf(),
            i < self.key_seq().len(),
        ensures
            self.view().contains_key(self.key_seq()[i as int]),
            *r == self.view()[self.key_seq()[i as int]],
    {
        proof {
            self.lemma_index(i as int);
        }
        &self.entries[i].1
    }

    /// A map with no entries.
    pub fn new() -> (r: Self)
        ensures
            r.wf(),
            r.view() == Map::<Seq<char>, V>::empty(),
    {
        let r = StrMap { entries: Vec::new() };
        proof {
            assert(r.key_seq() =~= Seq::<Seq<char>>::empty());
            assert(r.view() =~= Map::<Seq<char>, V>::empty());
        }
        r
    }

    /// The number of keys.
    pub fn len(&self) -> (r: usize)
        requires
            self.wf(),
        ensures
            r == self.view().len(),
    {
        proof {
            self.key_seq().unique_seq_to_set();
            assert(self.view().dom() =~= self.key_seq().to_set());
        }
        self.entries.len()
    }

    /// The storage position of a key, if it is stored.
    fn find(&self, k: &str) -> (r: Option<usize>)
        requires
            self.wf(),
        ensures
            match r {
                Some(i) => i < self.entries@.len() && self.entries@[i as int].0@ == k@,
                None => !self.view().contains_key(k@),
            },
    {
        let key = owned(k);
        let mut i: usize = 0;
        while i < self.entries.len()
            invariant
                i <= self.entries@.len(),
                key@ == k@,
                forall|j: int| 0 <= j < i ==> self.entries@[j].0@ != k@,
            decreases self.entries@.len() - i,
        {
            if self.entries[i].0 == key {
                return Some(i);
            }
            i = i + 1;
        }
        proof {
            if self.view().contains_key(k@) {
                let ks = self.key_seq();
                let j = choose|j: int| 0 <= j < ks.len() && ks[j] == k@;
                assert(self.entries@[j].0@ == k@);
            }
        }
        None
    }

    /// Whether the key is stored.
    pub fn contains_key(&self, k: &str) -> (r: bool)
        requires
            self.wf(),
        ensures
            r == self.view().contains_key(k@),
    {
        match self.find(k) {
            Some(i) => {
                proof { self.lemma_index(i as int); }
                true
            },
            None => false,
        }
    }

    /// The value stored under a key.
    pub fn get(&self, k: &str) -> (r: Option<&V>)
        requires
            self.wf(),
        ensures
            match r {
                Some(v) => self.view().contains_key(k@) && *v == self.view()[k@],
                None => !self.view().contains_key(k@),
            },
    {
        match self.find(k) {
            Some(i) => {
                proof { self.lemma_index(i as int); }
                Some(&self.entries[i].1)
            },
            None => None,
        }
    }

    /// Stores a value under a key, replacing the value already there.
    pub fn insert(&mut self, k: String, v: V)
        requires
            old(self).wf(),
        ensures
            final(self).wf(),
            final(self).view() == old(self).view().insert(k@, v),
    {
        let ghost old_view = self.view();
        let ghost kv = k@;
        match self.find(k.as_str()) {
            Some(i) => {
                proof { self.lemma_index(i as int); }
                let ghost old_entries = self.entries@;
                self.entries.set(i, (k, v));
                proof {
                    let ks0 = old_entries.map_values(|e: (String, V)| e.0@);
                    assert(self.key_seq() =~= ks0.update(i as int, kv));
                    assert(ks0[i as int] == kv);
                    assert(self.key_seq() =~= ks0);
                    assert forall|kk: Seq<char>| #[trigger] self.view().contains_key(kk)
                        == old_view.insert(kv, v).contains_key(kk) by {}
                    assert forall|kk: Seq<char>| self.view().contains_key(kk) implies
                        #[trigger] self.view()[kk] == old_view.insert(kv, v)[kk] by {
                        let j = self.key_seq().index_of(kk);
                        assert(self.key_seq()[j] == kk);
                        if kk == kv {
                            self.lemma_index(i as int);
                        } else {
                            assert(j != i);
                            assert(ks0.index_of(kk) == j) by {
                                let j0 = ks0.index_of(kk);
                                assert(ks0.contains(kk));
                                assert(ks0[j0] == kk);
                            }
                        }
                    }
                    assert(self.view() =~= old_view.insert(kv, v));
                }
            },
            None => {
                let ghost old_entries = self.entries@;
                self.entries.push((k, v));
                proof {
                    let ks0 = old_entries.map_values(|e: (String, V)| e.0@);
                    assert(self.key_seq() =~= ks0.push(kv));
                    assert(!ks0.contains(kv));
                    let n = old_entries.len() as int;
                    assert forall|kk: Seq<char>| #[trigger] self.view().contains_key(kk)
                        == old_view.insert(kv, v).contains_key(kk) by {
                        if kk == kv {
                            assert(self.key_seq()[n] == kv);
                        }
                        if ks0.contains(kk) {
                            let j = ks0.index_of(kk);
                            assert(self.key_seq()[j] == kk);
                        }
                    }
                    assert forall|kk: Seq<char>| self.view().contains_key(kk) implies
                        #[trigger] self.view()[kk] == old_view.insert(kv, v)[kk] by {
                        if kk == kv {
                            self.lemma_index(n);
                        } else {
                            let j = self.key_seq().index_of(kk);
                            assert(self.key_seq()[j] == kk);
                            assert(j != n);
                            assert(ks0[j] == kk);
                            let j0 = ks0.index_of(kk);
                            assert(ks0.contains(kk));
                            assert(ks0[j0] == kk);
                            assert(self.key_seq()[j0] == kk);
                        }
                    }
                    assert(self.view() =~= old_view.insert(kv, v));
                }
            },
        }
    }

    /// Takes a key and its value out of the map.
    pub fn remove(&mut self, k: &str) -> (r: Option<V>)
        requires
            old(self).wf(),
        ensures
            final(self).wf(),
            final(self).view() == old(self).view().remove(k@),
            match r {
                Some(v) => old(self).view().contains_key(k@) && v == old(self).view()[k@],
                None => !old(self).view().contains_key(k@),
            },
    {
        let ghost old_view = self.view();
        match self.find(k) {
            Some(i) => {
                proof { self.lemma_index(i as int); }
                let ghost old_entries = self.entries@;
                let (_key, v) = self.entries.remove(i);
                proof {
                    let ks0 = old_entries.map_values(|e: (String, V)| e.0@);
                    assert(self.key_seq() =~= ks0.remove(i as int));
                    assert forall|a: int, b: int| 0 <= a < b < self.key_seq().len() implies
                        self.key_seq()[a] != self.key_seq()[b] by {
                        let a0 = if a < i { a } else { a + 1 };
                        let b0 = if b < i { b } else { b + 1 };
                        assert(self.key_seq()[a] == ks0[a0]);
                        assert(self.key_seq()[b] == ks0[b0]);
                    }
                    assert forall|kk: Seq<char>| #[trigger] self.view().contains_key(kk)
                        == old_view.remove(k@).contains_key(kk) by {
                        if ks0.contains(kk) && kk != k@ {
                            let j = ks0.index_of(kk);
                            assert(ks0[j] == kk);
                            assert(j != i);
                            let j1 = if j < i { j } else { j - 1 };
                            assert(self.key_seq()[j1] == kk);
                        }
                        if self.key_seq().contains(kk) {
                            let j = self.key_seq().index_of(kk);
                            let j0 = if j < i { j } else { j + 1 };
                            assert(ks0[j0] == kk);
                            assert(kk != k@);
                        }
                    }
                    assert forall|kk: Seq<char>| self.view().contains_key(kk) implies
                        #[trigger] self.view()[kk] == old_view.remove(k@)[kk] by {
                        let j = self.key_seq().index_of(kk);
                        assert(self.key_seq()[j] == kk);
                        let j0 = if j < i { j } else { j + 1 };
                        assert(ks0[j0] == kk);
                        assert(ks0.contains(kk));
                        let jo = ks0.index_of(kk);
                        assert(ks0[jo] == kk);
                        assert(jo == j0);
                    }
                    assert(self.view() =~= old_view.remove(k@));
                }
                Some(v)
            },
            None => {
                proof { assert(self.view() =~= old_view.remove(k@)); }
                None
            },
        }
    }

    /// Removes every entry.
    pub fn clear(&mut self)
        ensures
            final(self).wf(),
            final(self).view() == Map::<Seq<char>, V>::empty(),
    {
        self.entries.clear();
        proof {
            assert(self.key_seq() =~= Seq::<Seq<char>>::empty());
            assert(self.view() =~= Map::<Seq<char>, V>::empty());
        }
    }

    /// The keys, each once, in storage order.
    pub fn keys(&self) -> (r: Vec<String>)
        requires
            self.wf(),
        ensures
            r@.map_values(|s: String| s@).no_duplicates(),
            forall|k: Seq<char>| self.view().contains_key(k)
                <==> r@.map_values(|s: String| s@).contains(k),
    {
        let mut r: Vec<String> = Vec::new();
        let mut i: usize = 0;
        while i < self.entries.len()
            invariant
                i <= self.entries@.len(),
                r@.len() == i,
                forall|j: int| 0 <= j < i ==> #[trigger] r@[j]@ == self.entries@[j].0@,
            decreases self.entries@.len() - i,
        {
            r.push(self.entries[i].0.clone());
            i = i + 1;
        }
        proof {
            assert(r@.map_values(|s: String| s@) =~= self.key_seq());
        }
        r
    }
}

} // verus!
