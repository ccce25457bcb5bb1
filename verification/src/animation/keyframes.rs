//! The keyframes of an animation curve, ordered by their time key (the
//! time in milliseconds, as a whole number): adding, replacing, and finding
//! the keyframes around a moment. The times and values themselves, and the
//! interpolation between keyframes, are floating point and kept by the
//! curve.
use std::collections::BTreeMap;
use vstd::prelude::*;
use vstd::std_specs::iter::IteratorSpec;

verus! {

/// The keyframes by time key.
pub struct KeyframeTrack<T> {
    keyframes: BTreeMap<u32, T>,
}

/// `r` is the largest of the keys `keys` at or before `key` (`None` when
/// every key comes after it).
pub open spec fn is_before(keys: Set<u32>, key: u32, r: Option<u32>) -> bool {
    match r {
        Some(k) => keys.contains(k) && k <= key && forall|j: u32| #[trigger] keys.contains(j) && j <= key ==> j <= k,
        None => forall|j: u32| #[trigger] keys.contains(j) ==> j > key,
    }
}

/// `r` is the smallest of the keys `keys` at or after `key` (`None` when
/// every key comes before it).
pub open spec fn is_after(keys: Set<u32>, key: u32, r: Option<u32>) -> bool {
    match r {
        Some(k) => keys.contains(k) && k >= key && forall|j: u32| #[trigger] keys.contains(j) && j >= key ==> j >= k,
        None => forall|j: u32| #[trigger] keys.contains(j) ==> j < key,
    }
}

/// Keys that a map hands out in increasing order increase strictly.
proof fn lemma_increasing_keys(s: Seq<&u32>)
    requires
        vstd::std_specs::btree::increasing_seq(s),
    ensures
        forall|i: int, j: int| 0 <= i < j < s.len() ==> *s[i] < *s[j],
{
    assert forall|i: int, j: int| 0 <= i < j < s.len() implies *s[i] < *s[j] by {
        assert(vstd::std_specs::cmp::OrdSpec::cmp_spec(&s[i], &s[j]) is Less);
    }
}

impl<T> KeyframeTrack<T> {
    /// The keyframes by key.
    pub closed spec fn view(&self) -> Map<u32, T> {
        self.keyframes@
    }

    /// No keyframes.
    pub fn new() -> (r: KeyframeTrack<T>)
        ensures
            r.view() == Map::<u32, T>::empty(),
    {
        KeyframeTrack { keyframes: BTreeMap::new() }
    }

    /// The number of keyframes.
    pub fn len(&self) -> (r: usize)
        ensures
            r == self.view().len(),
    {
        self.keyframes.len()
    }

    /// Whether there are no keyframes.
    pub fn is_empty(&self) -> (r: bool)
        ensures
            r == (self.view().len() == 0),
    {
        self.keyframes.len() == 0
    }

    /// Removes every keyframe.
    pub fn clear(&mut self)
        ensures
            final(self).view() == Map::<u32, T>::empty(),
    {
        self.keyframes.clear();
    }

    /// Adds `value` under `key`, replacing a keyframe with the same key.
    pub fn insert(&mut self, key: u32, value: T)
        ensures
            final(self).view() == old(self).view().insert(key, value),
    {
        self.keyframes.insert(key, value);
    }

    /// The keyframe under `key`, if there is one.
    pub fn get(&self, key: u32) -> (r: Option<&T>)
        ensures
            match r {
                Some(v) => self.view().contains_key(key) && *v == self.view()[key],
                None => !self.view().contains_key(key),
            },
    {
        self.keyframes.get(&key)
    }

    /// The keys, in increasing order.
    pub fn keys(&self) -> (r: Vec<u32>)
        ensures
            r@.to_set() == self.view().dom(),
            r@.no_duplicates(),
            forall|i: int, j: int| 0 <= i < j < r@.len() ==> r@[i] < r@[j],
    {
        let mut v: Vec<u32> = Vec::new();
        let ghost s = vstd::std_specs::btree::spec_keys_iter(&self.keyframes).remaining();
        for k in it: self.keyframes.keys()
            invariant
                v@ == it.seq().take(it.index()).unref(),
                it.seq() == s,
        {
            v.push(*k);
        }
        proof {
            assert(v@ =~= s.unref());
            lemma_increasing_keys(s);
        }
        v
    }

    /// The keys of the keyframes around the key `key`: the last one at or
    /// before it and the first one at or after it (both `key` itself when a
    /// keyframe has that key).
    pub fn neighbors(&self, key: u32) -> (r: (Option<u32>, Option<u32>))
        ensures
            is_before(self.view().dom(), key, r.0),
            is_after(self.view().dom(), key, r.1),
    {
        let ks = self.keys();
        let n = ks.len();
        let mut p: usize = 0;
        while p < n && ks[p] < key
            invariant
                n == ks@.len(),
                p <= n,
                forall|j: int| 0 <= j < p ==> ks@[j] < key,
            decreases n - p,
        {
            p = p + 1;
        }
        let after = if p < n { Some(ks[p]) } else { None };
        let before = if p < n && ks[p] == key {
            Some(key)
        } else if p > 0 {
            Some(ks[p - 1])
        } else {
            None
        };
        proof {
            let dom = self.view().dom();
            assert forall|j: u32| #[trigger] dom.contains(j) implies ks@.contains(j) by {
                assert(ks@.to_set().contains(j));
            }
            if p < n {
                assert(ks@.to_set().contains(ks@[p as int]));
            }
            if p > 0 {
                assert(ks@.to_set().contains(ks@[p - 1]));
            }
            assert forall|j: u32| #[trigger] dom.contains(j) && j >= key implies p < n && j >= ks@[p as int] by {
                let i = ks@.index_of(j);
                if i < p {
                    assert(ks@[i] < key);
                }
                if i > p {
                    assert(ks@[p as int] < ks@[i]);
                }
            }
            assert forall|j: u32| #[trigger] dom.contains(j) && j <= key implies
                (match before { Some(k) => j <= k, None => false }) by {
                let i = ks@.index_of(j);
                if p < n && ks@[p as int] == key {
                    if i > p {
                        assert(ks@[p as int] < ks@[i]);
                    }
                } else {
                    if i >= p {
                        assert(i < n);
                        if i > p {
                            assert(ks@[p as int] < ks@[i]);
                        }
                        assert(ks@[p as int] >= key);
                        assert(ks@[i] == key);
                        assert(i == p);
                    }
                    if i < p - 1 {
                        assert(ks@[i] < ks@[p - 1]);
                    }
                }
            }
        }
        (before, after)
    }
}

/// A keyframe just added is there, with its value, under its key, and the
/// others are as they were.
pub proof fn lemma_inserted_is_found<T>(before: Map<u32, T>, after: Map<u32, T>, key: u32, value: T)
    requires
        after == before.insert(key, value),
    ensures
        after.contains_key(key),
        after[key] == value,
        forall|k: u32| k != key ==> (#[trigger] after.contains_key(k) <==> before.contains_key(k)),
        forall|k: u32| k != key && #[trigger] before.contains_key(k) ==> after[k] == before[k],
{
}

/// The keyframes around a key that has a keyframe are that keyframe on
/// both sides.
pub proof fn lemma_neighbors_of_a_key(keys: Set<u32>, key: u32, a: Option<u32>, b: Option<u32>)
    requires
        keys.contains(key),
        is_before(keys, key, a),
        is_after(keys, key, b),
    ensures
        a == Some(key),
        b == Some(key),
{
}

} // verus!
