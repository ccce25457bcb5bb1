//! The asset cache: resources by identifier, an index by path, and a running
//! total of the bytes the resources take.
use std::collections::HashMap;
use std::sync::Arc;
use std::time::Instant;
use vstd::prelude::*;
use crate::assets::asset_handle::{arc_value, AssetHandle, AssetId};
use crate::clock::{elapsed_secs, now};
use crate::collections::{
    lemma_map_sum_insert, lemma_map_sum_remove, lemma_map_sum_empty, lemma_take_push_to_set, map_keys,
    lemma_push_contains, map_sum, owned, StrMap,
};

verus! {

broadcast use vstd::std_specs::hash::group_hash_axioms;

/// When a cached resource may be dropped by a cleanup.
#[derive(Debug, Clone, Copy, PartialEq, Eq, Structural)]
pub enum CacheStrategy {
    /// Never dropped by a cleanup.
    Permanent,
    /// Dropped once it has not been read for more than five minutes.
    LRU,
    /// Dropped once the cache holds the only strong reference.
    RefCount,
}

/// Seconds without a read after which an `LRU` entry may be dropped.
pub const LRU_IDLE_SECS: u64 = 300;

/// Whether an entry with this strategy may be dropped, given how long it has
/// gone unread and how many strong references to its resource exist.
pub open spec fn cleanup_allowed(strategy: CacheStrategy, idle_secs: u64, strong_count: usize) -> bool {
    match strategy {
        CacheStrategy::Permanent => false,
        CacheStrategy::LRU => idle_secs > LRU_IDLE_SECS,
        CacheStrategy::RefCount => strong_count <= 1,
    }
}

/// The cleanup rule of the cache for one entry.
pub fn should_cleanup_with(strategy: CacheStrategy, idle_secs: u64, strong_count: usize) -> (r: bool)
    ensures
        r == cleanup_allowed(strategy, idle_secs, strong_count),
{
    match strategy {
        CacheStrategy::Permanent => false,
        CacheStrategy::LRU => idle_secs > LRU_IDLE_SECS,
        CacheStrategy::RefCount => strong_count <= 1,
    }
}

/// `Arc::strong_count`: the number of strong references to the shared value,
/// of which `a` is one.
#[verifier::external_body]
fn arc_strong_count<R>(a: &Arc<R>) -> (r: usize)
    ensures
        r >= 1,
{
    Arc::strong_count(a)
}

/// `Arc::clone`: another strong reference to the same value.
#[verifier::external_body]
fn arc_clone<R>(a: &Arc<R>) -> (r: Arc<R>)
    ensures
        r == *a,
{
    Arc::clone(a)
}

/// One cached resource with its bookkeeping.
pub struct CacheEntry<R> {
    resource: Arc<R>,
    access_count: u64,
    last_access: Instant,
    strategy: CacheStrategy,
    size_bytes: usize,
    path: String,
    asset_type: String,
}

impl<R> CacheEntry<R> {
    /// The cached resource.
    pub closed spec fn spec_resource(&self) -> Arc<R> {
        self.resource
    }

    /// How many times the resource has been read through the cache.
    pub closed spec fn spec_access_count(&self) -> u64 {
        self.access_count
    }

    /// The entry's cleanup strategy.
    pub closed spec fn spec_strategy(&self) -> CacheStrategy {
        self.strategy
    }

    /// The size the entry counts for.
    pub closed spec fn spec_size(&self) -> usize {
        self.size_bytes
    }

    /// The path the entry was cached under.
    pub closed spec fn spec_path(&self) -> Seq<char> {
        self.path@
    }

    /// The name of the resource's type.
    pub closed spec fn spec_asset_type(&self) -> Seq<char> {
        self.asset_type@
    }

    /// A fresh entry, not yet read.
    fn new(resource: Arc<R>, path: String, asset_type: String, strategy: CacheStrategy, size_bytes: usize) -> (r: Self)
        ensures
            r.spec_resource() == resource,
            r.spec_access_count() == 0,
            r.spec_strategy() == strategy,
            r.spec_size() == size_bytes,
            r.spec_path() == path@,
            r.spec_asset_type() == asset_type@,
    {
        CacheEntry {
            resource,
            access_count: 0,
            last_access: now(),
            strategy,
            size_bytes,
            path,
            asset_type,
        }
    }

    /// Counts one more read and restarts the idle clock.
    fn access_count(&self) -> (r: u64)
        ensures
            r == self.spec_access_count(),
    {
        self.access_count
    }

    fn access(&mut self)
        requires
            old(self).spec_access_count() < u64::MAX,
        ensures
            final(self).spec_access_count() == old(self).spec_access_count() + 1,
            final(self).spec_resource() == old(self).spec_resource(),
            final(self).spec_strategy() == old(self).spec_strategy(),
            final(self).spec_size() == old(self).spec_size(),
            final(self).spec_path() == old(self).spec_path(),
            final(self).spec_asset_type() == old(self).spec_asset_type(),
    {
        self.access_count = self.access_count + 1;
        self.last_access = now();
    }

    /// Reads the resource, counting the read.
    fn get(&mut self) -> (r: Arc<R>)
        requires
            old(self).spec_access_count() < u64::MAX,
        ensures
            r == old(self).spec_resource(),
            final(self).spec_access_count() == old(self).spec_access_count() + 1,
            final(self).spec_resource() == old(self).spec_resource(),
            final(self).spec_strategy() == old(self).spec_strategy(),
            final(self).spec_size() == old(self).spec_size(),
            final(self).spec_path() == old(self).spec_path(),
            final(self).spec_asset_type() == old(self).spec_asset_type(),
    {
        self.access();
        arc_clone(&self.resource)
    }

    /// What the cleanup rule reads of the entry now: the whole seconds since
    /// it was last read, as the clock reports them, and the number of strong
    /// references to its resource, of which the cache holds one.
    fn observe(&self) -> (r: (u64, usize))
        ensures
            r.1 >= 1,
    {
        (elapsed_secs(&self.last_access), arc_strong_count(&self.resource))
    }
}

/// `after` is `before` with one read of the entry under `id` counted: that
/// entry's count goes up by one and the rest of it stays, and every other
/// entry stays as it was.
pub open spec fn read_counted<R>(before: Map<AssetId, CacheEntry<R>>, after: Map<AssetId, CacheEntry<R>>, id: AssetId) -> bool {
    &&& before.contains_key(id)
    &&& after.dom() == before.dom()
    &&& forall|k: AssetId| k != id && #[trigger] before.contains_key(k) ==> after[k] == before[k]
    &&& after[id].spec_access_count() == before[id].spec_access_count() + 1
    &&& after[id].spec_resource() == before[id].spec_resource()
    &&& after[id].spec_strategy() == before[id].spec_strategy()
    &&& after[id].spec_size() == before[id].spec_size()
    &&& after[id].spec_path() == before[id].spec_path()
    &&& after[id].spec_asset_type() == before[id].spec_asset_type()
}

/// The size an entry counts for, as a natural number.
pub open spec fn entry_size<R>(e: CacheEntry<R>) -> nat {
    e.spec_size() as nat
}

/// A cache of shared resources of type `R`, indexed by identifier and by path,
/// that keeps the total of their sizes.
pub struct AssetCache<R> {
    entries: HashMap<AssetId, CacheEntry<R>>,
    path_to_id: StrMap<AssetId>,
    max_size_bytes: usize,
    current_size_bytes: usize,
    cleanup_threshold_bytes: usize,
}

impl<R> AssetCache<R> {
    /// The cached entries by identifier.
    pub closed spec fn spec_entries(&self) -> Map<AssetId, CacheEntry<R>> {
        self.entries@
    }

    /// The identifier each path was last cached under.
    pub closed spec fn spec_paths(&self) -> Map<Seq<char>, AssetId> {
        self.path_to_id.view()
    }

    /// The byte total the cache keeps.
    pub closed spec fn spec_current_size(&self) -> usize {
        self.current_size_bytes
    }

    /// The capacity the cache was made with.
    pub closed spec fn spec_max_size(&self) -> usize {
        self.max_size_bytes
    }

    /// The total above which an insertion triggers a cleanup.
    pub closed spec fn spec_cleanup_threshold(&self) -> usize {
        self.cleanup_threshold_bytes
    }

    /// The byte total is the sum of the entries' sizes, and the path index is well formed.
    pub closed spec fn wf(&self) -> bool {
        &&& self.current_size_bytes == map_sum(self.entries@, |e: CacheEntry<R>| entry_size(e))
        &&& self.path_to_id.wf()
    }

    /// An empty cache with the given capacity and cleanup threshold (in bytes).
    pub fn new(max_size_bytes: usize, cleanup_threshold_bytes: usize) -> (r: Self)
        ensures
            r.wf(),
            r.spec_entries() == Map::<AssetId, CacheEntry<R>>::empty(),
            r.spec_paths() == Map::<Seq<char>, AssetId>::empty(),
            r.spec_current_size() == 0,
            r.spec_max_size() == max_size_bytes,
            r.spec_cleanup_threshold() == cleanup_threshold_bytes,
    {
        let r = AssetCache {
            entries: HashMap::new(),
            path_to_id: StrMap::new(),
            max_size_bytes,
            current_size_bytes: 0,
            cleanup_threshold_bytes,
        };
        proof {
            lemma_map_sum_empty::<AssetId, CacheEntry<R>>(|e: CacheEntry<R>| entry_size(e));
        }
        r
    }

    /// Sets the total above which an insertion triggers a cleanup.
    pub fn set_cleanup_threshold_bytes(&mut self, threshold_bytes: usize)
        ensures
            final(self).spec_entries() == old(self).spec_entries(),
            final(self).spec_paths() == old(self).spec_paths(),
            final(self).spec_current_size() == old(self).spec_current_size(),
            final(self).spec_max_size() == old(self).spec_max_size(),
            final(self).spec_cleanup_threshold() == threshold_bytes,
            old(self).wf() ==> final(self).wf(),
    {
        self.cleanup_threshold_bytes = threshold_bytes;
    }

    /// The cache's total is the sum of the sizes of its entries.
    pub proof fn lemma_total_is_sum(&self)
        requires
            self.wf(),
        ensures
            self.spec_current_size() == map_sum(self.spec_entries(), |e: CacheEntry<R>| entry_size(e)),
    {
    }

    /// An entry takes no more bytes than the cache's total.
    pub proof fn lemma_entry_within_total(&self, id: AssetId)
        requires
            self.wf(),
        ensures
            self.spec_entries().contains_key(id) ==> self.spec_entries()[id].spec_size() <= self.spec_current_size(),
    {
        if self.entries@.contains_key(id) {
            self.lemma_size_bound(id);
        }
    }

    proof fn lemma_size_bound(&self, id: AssetId)
        requires
            self.wf(),
            self.entries@.contains_key(id),
        ensures
            self.entries@[id].spec_size() <= self.current_size_bytes,
    {
        lemma_map_sum_remove(self.entries@, |e: CacheEntry<R>| entry_size(e), id);
    }

    /// Caches `resource` under `id` and `path`, replacing any entry with the same
    /// identifier, then cleans up if the total went above the threshold.
    /// Returns a handle to the resource.
    pub fn insert(
        &mut self,
        id: AssetId,
        resource: Arc<R>,
        path: &str,
        asset_type: &str,
        strategy: CacheStrategy,
        size_bytes: usize,
    ) -> (r: AssetHandle<R>)
        requires
            old(self).wf(),
            old(self).spec_current_size() - (if old(self).spec_entries().contains_key(id) {
                old(self).spec_entries()[id].spec_size() as int
            } else {
                0
            }) + size_bytes <= usize::MAX,
        ensures
            final(self).wf(),
            r.spec_id() == id,
            r.spec_path() == path@,
            r.target() == arc_value(&resource),
            cache_inserted(*old(self), *final(self), id, resource, path@, asset_type@, strategy, size_bytes),
            strategy == CacheStrategy::Permanent ==> final(self).spec_entries().contains_key(id),
            final(self).spec_max_size() == old(self).spec_max_size(),
            final(self).spec_cleanup_threshold() == old(self).spec_cleanup_threshold(),
    {
        let handle = AssetHandle::new(id, &resource, path);
        let entry = CacheEntry::new(resource, owned(path), owned(asset_type), strategy, size_bytes);
        let ghost new_entry = entry;
        let ghost f = |e: CacheEntry<R>| entry_size(e);
        let ghost old_entries = self.entries@;
        let ghost old_paths = self.path_to_id.view();
        match self.entries.get(&id) {
            Some(old_entry) => {
                proof { self.lemma_size_bound(id); }
                self.current_size_bytes = self.current_size_bytes - old_entry.size_bytes;
            },
            None => {},
        }
        self.entries.insert(id, entry);
        self.path_to_id.insert(owned(path), id);
        self.current_size_bytes = self.current_size_bytes + size_bytes;
        proof {
            assert(fresh_entry(new_entry, new_entry.spec_resource(), path@, asset_type@, strategy, size_bytes));
            lemma_map_sum_insert(old_entries, f, id, new_entry);
            if old_entries.contains_key(id) {
                lemma_map_sum_remove(old_entries, f, id);
            } else {
                assert(old_entries.remove(id) =~= old_entries);
            }
            assert(self.entries@ == old_entries.insert(id, new_entry));
        }
        let ghost mid_entries = self.entries@;
        self.maybe_cleanup();
        proof {
            assert(mid_entries.contains_key(id));
            assert(mid_entries[id] == new_entry);
            assert(mid_entries[id].spec_strategy() == strategy);
        }
        handle
    }

    /// Runs a cleanup if the total is above the threshold.
    fn maybe_cleanup(&mut self)
        requires
            old(self).wf(),
        ensures
            final(self).wf(),
            if old(self).spec_current_size() > old(self).spec_cleanup_threshold() {
                cleaned_by_rule(old(self).spec_entries(), final(self).spec_entries())
                    && cleaned_from(old(self).spec_entries(), final(self).spec_entries())
                    && final(self).spec_paths() == paths_after_cleanup(
                        old(self).spec_paths(), old(self).spec_entries(), final(self).spec_entries())
            } else {
                &&& final(self).spec_entries() == old(self).spec_entries()
                &&& final(self).spec_paths() == old(self).spec_paths()
                &&& final(self).spec_current_size() == old(self).spec_current_size()
            },
            final(self).spec_max_size() == old(self).spec_max_size(),
            final(self).spec_cleanup_threshold() == old(self).spec_cleanup_threshold(),
    {
        if self.current_size_bytes > self.cleanup_threshold_bytes {
            self.cleanup();
        }
    }

    /// Reads the resource cached under `id`, counting the read.
    pub fn get(&mut self, id: AssetId) -> (r: Option<Arc<R>>)
        requires
            old(self).wf(),
            old(self).spec_entries().contains_key(id) ==> old(self).spec_entries()[id].spec_access_count() < u64::MAX,
        ensures
            final(self).wf(),
            final(self).spec_paths() == old(self).spec_paths(),
            final(self).spec_current_size() == old(self).spec_current_size(),
            final(self).spec_max_size() == old(self).spec_max_size(),
            final(self).spec_cleanup_threshold() == old(self).spec_cleanup_threshold(),
            final(self).spec_entries().dom() == old(self).spec_entries().dom(),
            forall|k: AssetId| k != id && #[trigger] old(self).spec_entries().contains_key(k)
                ==> final(self).spec_entries()[k] == old(self).spec_entries()[k],
            match r {
                Some(a) => {
                    let e0 = old(self).spec_entries()[id];
                    let e1 = final(self).spec_entries()[id];
                    &&& old(self).spec_entries().contains_key(id)
                    &&& a == e0.spec_resource()
                    &&& e1.spec_access_count() == e0.spec_access_count() + 1
                    &&& e1.spec_resource() == e0.spec_resource()
                    &&& e1.spec_strategy() == e0.spec_strategy()
                    &&& e1.spec_size() == e0.spec_size()
                    &&& e1.spec_path() == e0.spec_path()
                    &&& e1.spec_asset_type() == e0.spec_asset_type()
                },
                None => !old(self).spec_entries().contains_key(id)
                    && final(self).spec_entries() == old(self).spec_entries(),
            },
    {
        let ghost f = |e: CacheEntry<R>| entry_size(e);
        let ghost old_entries = self.entries@;
        match self.entries.remove(&id) {
            Some(mut entry) => {
                let a = entry.get();
                let ghost e1 = entry;
                self.entries.insert(id, entry);
                proof {
                    lemma_map_sum_remove(old_entries, f, id);
                    lemma_map_sum_insert(old_entries.remove(id), f, id, e1);
                    assert(old_entries.remove(id).remove(id) =~= old_entries.remove(id));
                    assert(self.entries@ == old_entries.remove(id).insert(id, e1));
                    assert(self.entries@.dom() =~= old_entries.dom());
                }
                Some(a)
            },
            None => {
                proof { assert(self.entries@ =~= old_entries); }
                None
            },
        }
    }

    /// Reads the resource last cached under `path`, counting the read.
    pub fn get_by_path(&mut self, path: &str) -> (r: Option<Arc<R>>)
        requires
            old(self).wf(),
            forall|k: AssetId| #[trigger] old(self).spec_entries().contains_key(k)
                ==> old(self).spec_entries()[k].spec_access_count() < u64::MAX,
        ensures
            final(self).wf(),
            final(self).spec_paths() == old(self).spec_paths(),
            final(self).spec_current_size() == old(self).spec_current_size(),
            final(self).spec_entries().dom() == old(self).spec_entries().dom(),
            final(self).spec_max_size() == old(self).spec_max_size(),
            final(self).spec_cleanup_threshold() == old(self).spec_cleanup_threshold(),
            match r {
                Some(a) => old(self).spec_paths().contains_key(path@)
                    && old(self).spec_entries().contains_key(old(self).spec_paths()[path@])
                    && a == old(self).spec_entries()[old(self).spec_paths()[path@]].spec_resource(),
                None => (!old(self).spec_paths().contains_key(path@)
                    || !old(self).spec_entries().contains_key(old(self).spec_paths()[path@]))
                    && final(self).spec_entries() == old(self).spec_entries(),
            },
            r is Some ==> read_counted(old(self).spec_entries(), final(self).spec_entries(),
                old(self).spec_paths()[path@]),
    {
        match self.path_to_id.get(path) {
            Some(id) => {
                let id = *id;
                self.get(id)
            },
            None => None,
        }
    }

    /// Whether a resource is cached under `id`.
    pub fn contains(&self, id: AssetId) -> (r: bool)
        ensures
            r == self.spec_entries().contains_key(id),
    {
        self.entries.contains_key(&id)
    }

    /// Whether `path` is in the path index.
    pub fn contains_path(&self, path: &str) -> (r: bool)
        requires
            self.wf(),
        ensures
            r == self.spec_paths().contains_key(path@),
    {
        self.path_to_id.contains_key(path)
    }

    /// Drops the entry cached under `id`, and its path from the index.
    /// Returns whether there was such an entry.
    pub fn remove(&mut self, id: AssetId) -> (r: bool)
        requires
            old(self).wf(),
        ensures
            final(self).wf(),
            r == old(self).spec_entries().contains_key(id),
            final(self).spec_entries() == old(self).spec_entries().remove(id),
            r ==> final(self).spec_paths() == old(self).spec_paths().remove(old(self).spec_entries()[id].spec_path()),
            !r ==> final(self).spec_paths() == old(self).spec_paths(),
            r ==> final(self).spec_current_size() == old(self).spec_current_size() - old(self).spec_entries()[id].spec_size(),
            !r ==> final(self).spec_current_size() == old(self).spec_current_size(),
            final(self).spec_max_size() == old(self).spec_max_size(),
            final(self).spec_cleanup_threshold() == old(self).spec_cleanup_threshold(),
    {
        let ghost f = |e: CacheEntry<R>| entry_size(e);
        let ghost old_entries = self.entries@;
        match self.entries.remove(&id) {
            Some(entry) => {
                proof {
                    lemma_map_sum_remove(old_entries, f, id);
                }
                self.path_to_id.remove(entry.path.as_str());
                self.current_size_bytes = self.current_size_bytes - entry.size_bytes;
                true
            },
            None => {
                proof { assert(old_entries.remove(id) =~= old_entries); }
                false
            },
        }
    }

    /// Drops every entry that the cleanup rule lets go, given for each entry
    /// the idle seconds and strong count in `observed` (an entry with no
    /// observation stays), and returns how many went; their paths leave the
    /// index.
    pub fn cleanup_with(&mut self, observed: &HashMap<AssetId, (u64, usize)>) -> (r: usize)
        requires
            old(self).wf(),
        ensures
            final(self).wf(),
            final(self).spec_entries() == kept_after(old(self).spec_entries(), observed@),
            cleaned_from(old(self).spec_entries(), final(self).spec_entries()),
            final(self).spec_paths() == paths_after_cleanup(
                old(self).spec_paths(), old(self).spec_entries(), final(self).spec_entries()),
            r == old(self).spec_entries().len() - final(self).spec_entries().len(),
            final(self).spec_max_size() == old(self).spec_max_size(),
            final(self).spec_cleanup_threshold() == old(self).spec_cleanup_threshold(),
    {
        let ghost old_entries = self.entries@;
        let ghost old_paths = self.path_to_id.view();
        let ids = map_keys(&self.entries);
        let mut to_remove: Vec<AssetId> = Vec::new();
        let mut i: usize = 0;
        while i < ids.len()
            invariant
                i <= ids@.len(),
                ids@.no_duplicates(),
                forall|k: AssetId| old_entries.contains_key(k) <==> ids@.contains(k),
                self.entries@ == old_entries,
                to_remove@.no_duplicates(),
                all_droppable(old_entries, to_remove@),
                forall|j: int| 0 <= j < to_remove@.len() ==> ids@.take(i as int).contains(#[trigger] to_remove@[j]),
                forall|j: int| 0 <= j < i ==> (to_remove@.contains(#[trigger] ids@[j])
                    <==> dropped_by(old_entries, observed@, ids@[j])),
            decreases ids@.len() - i,
        {
            let id = ids[i];
            assert(ids@.contains(id));
            let ghost t_before = to_remove@;
            assert(!ids@.take(i as int).contains(id)) by {
                if ids@.take(i as int).contains(id) {
                    let j = choose|j: int| 0 <= j < i && ids@.take(i as int)[j] == id;
                    assert(ids@[j] == ids@[i as int]);
                }
            }
            assert(!t_before.contains(id)) by {
                if t_before.contains(id) {
                    let j = choose|j: int| 0 <= j < t_before.len() && t_before[j] == id;
                    assert(ids@.take(i as int).contains(t_before[j]));
                }
            }
            match self.entries.get(&id) {
                Some(entry) => {
                    let drop = match observed.get(&id) {
                        Some(o) => should_cleanup_with(entry.strategy, o.0, o.1),
                        None => false,
                    };
                    if drop {
                        proof {
                            assert(!ids@.take(i as int).contains(id)) by {
                                if ids@.take(i as int).contains(id) {
                                    let j = choose|j: int| 0 <= j < i && ids@[j] == id;
                                    assert(ids@[j] == ids@[i as int]);
                                }
                            }
                            assert forall|j: int| 0 <= j < to_remove@.len() implies to_remove@[j] != id by {
                                assert(ids@.take(i as int).contains(to_remove@[j]));
                            }
                        }
                        let ghost t0 = to_remove@;
                        to_remove.push(id);
                        proof {
                            assert(all_droppable(old_entries, t0));
                            assert(to_remove@ == t0.push(id));
                            assert(old_entries.contains_key(id));
                            assert(old_entries[id] == *entry);
                            assert(old_entries[id].spec_strategy() != CacheStrategy::Permanent);
                            lemma_droppable_push(old_entries, t0, id);
                            assert(all_droppable(old_entries, to_remove@));
                        }
                    }
                },
                None => {},
            }
            proof {
                assert(to_remove@.contains(id) <==> dropped_by(old_entries, observed@, id)) by {
                    if to_remove@ != t_before {
                        assert(to_remove@[to_remove@.len() - 1] == id);
                    }
                }
                assert forall|j: int| 0 <= j < i + 1 implies (to_remove@.contains(#[trigger] ids@[j])
                    <==> dropped_by(old_entries, observed@, ids@[j])) by {
                    if j < i {
                        assert(ids@[j] != id) by {
                            assert(ids@.take(i as int)[j] == ids@[j]);
                        }
                        lemma_push_contains(t_before, id, ids@[j]);
                    }
                }
                assert forall|j: int| 0 <= j < to_remove@.len() implies ids@.take(i + 1).contains(#[trigger] to_remove@[j]) by {
                    if j == to_remove@.len() - 1 && to_remove@[j] == id {
                        assert(ids@.take(i + 1)[i as int] == id);
                    } else {
                        assert(ids@.take(i as int).contains(to_remove@[j]));
                        let t = choose|t: int| 0 <= t < i && ids@.take(i as int)[t] == to_remove@[j];
                        assert(ids@.take(i + 1)[t] == to_remove@[j]);
                    }
                }
            }
            i = i + 1;
        }
        proof {
            assert forall|key: AssetId| #[trigger] old_entries.contains_key(key) implies
                (to_remove@.contains(key) <==> dropped_by(old_entries, observed@, key)) by {
                assert(ids@.contains(key));
                let j = ids@.index_of(key);
                assert(ids@[j] == key);
            }
        }
        let removed_count = to_remove.len();
        let mut k: usize = 0;
        while k < to_remove.len()
            invariant
                forall|key: AssetId| #[trigger] old_entries.contains_key(key) ==>
                    (to_remove@.contains(key) <==> dropped_by(old_entries, observed@, key)),
                k <= to_remove@.len(),
                to_remove@.no_duplicates(),
                removed_count == to_remove@.len(),
                self.wf(),
                all_droppable(old_entries, to_remove@),
                self.entries@ == old_entries.remove_keys(to_remove@.take(k as int).to_set()),
                self.path_to_id.view() == remove_paths(old_paths, old_entries, to_remove@.take(k as int)),
                self.max_size_bytes == old(self).max_size_bytes,
                self.cleanup_threshold_bytes == old(self).cleanup_threshold_bytes,
            decreases to_remove@.len() - k,
        {
            let id = to_remove[k];
            proof {
                assert(old_entries.contains_key(id));
                assert(!to_remove@.take(k as int).contains(id)) by {
                    if to_remove@.take(k as int).contains(id) {
                        let j = choose|j: int| 0 <= j < k && to_remove@[j] == id;
                        assert(to_remove@[j] == to_remove@[k as int]);
                    }
                }
                assert(self.entries@.contains_key(id));
                assert(to_remove@.take(k + 1) =~= to_remove@.take(k as int).push(id));
                assert(to_remove@.take(k + 1).drop_last() =~= to_remove@.take(k as int));
                assert(to_remove@.take(k + 1).last() == id);
                assert(old_entries[to_remove@[k as int]].spec_strategy() != CacheStrategy::Permanent);
                assert forall|x: AssetId| to_remove@.take(k + 1).to_set().contains(x)
                    <==> to_remove@.take(k as int).to_set().insert(id).contains(x) by {
                    if to_remove@.take(k + 1).contains(x) {
                        let t = choose|t: int| 0 <= t < k + 1 && #[trigger] to_remove@.take(k + 1)[t] == x;
                        if t < k {
                            assert(to_remove@.take(k as int)[t] == x);
                        }
                    }
                    if to_remove@.take(k as int).contains(x) {
                        let t = choose|t: int| 0 <= t < k && #[trigger] to_remove@.take(k as int)[t] == x;
                        assert(to_remove@.take(k + 1)[t] == x);
                    }
                    if x == id {
                        assert(to_remove@.take(k + 1)[k as int] == x);
                    }
                }
                assert(to_remove@.take(k + 1).to_set() =~= to_remove@.take(k as int).to_set().insert(id));
                assert(old_entries.remove_keys(to_remove@.take(k + 1).to_set())
                    =~= old_entries.remove_keys(to_remove@.take(k as int).to_set()).remove(id));
            }
            let ghost before = self.entries@;
            self.remove(id);
            proof {
                assert(before[id] == old_entries[id]);
            }
            k = k + 1;
        }
        proof {
            assert(to_remove@.take(to_remove@.len() as int) =~= to_remove@);
            let gone = to_remove@.to_set();
            assert forall|key: AssetId| #[trigger] self.entries@.contains_key(key) implies
                old_entries.contains_key(key) && self.entries@[key] == old_entries[key] by {}
            assert forall|key: AssetId| #[trigger] old_entries.contains_key(key)
                && old_entries[key].spec_strategy() == CacheStrategy::Permanent implies
                self.entries@.contains_key(key) by {
                if gone.contains(key) {
                    let j = choose|j: int| 0 <= j < to_remove@.len() && to_remove@[j] == key;
                }
            }
            to_remove@.unique_seq_to_set();
            assert(gone.subset_of(old_entries.dom())) by {
                assert forall|key: AssetId| gone.contains(key) implies old_entries.dom().contains(key) by {
                    let j = choose|j: int| 0 <= j < to_remove@.len() && to_remove@[j] == key;
                }
            }
            assert(self.entries@.dom() =~= old_entries.dom().difference(gone));
            vstd::set_lib::lemma_set_difference_len(old_entries.dom(), gone);
            assert(old_entries.dom().intersect(gone) =~= gone);
            lemma_paths_after_cleanup(old_paths, old_entries, to_remove@, self.entries@);
            assert forall|key: AssetId| self.entries@.contains_key(key)
                <==> #[trigger] kept_after(old_entries, observed@).contains_key(key) by {
                if old_entries.contains_key(key) {
                    assert(gone.contains(key) <==> to_remove@.contains(key));
                }
            }
            assert(self.entries@ =~= kept_after(old_entries, observed@));
        }
        removed_count
    }

    /// Drops every entry that its strategy lets go now, and returns how many
    /// went: each entry's idle seconds and strong count are read (from the
    /// clock and the reference counts), and the cleanup rule decides
    /// (`cleanup_with`). What is read depends on the time and on the
    /// references held elsewhere.
    pub fn cleanup(&mut self) -> (r: usize)
        requires
            old(self).wf(),
        ensures
            final(self).wf(),
            cleaned_by_rule(old(self).spec_entries(), final(self).spec_entries()),
            cleaned_from(old(self).spec_entries(), final(self).spec_entries()),
            final(self).spec_paths() == paths_after_cleanup(
                old(self).spec_paths(), old(self).spec_entries(), final(self).spec_entries()),
            r == old(self).spec_entries().len() - final(self).spec_entries().len(),
            final(self).spec_max_size() == old(self).spec_max_size(),
            final(self).spec_cleanup_threshold() == old(self).spec_cleanup_threshold(),
    {
        let ids = map_keys(&self.entries);
        let mut observed: HashMap<AssetId, (u64, usize)> = HashMap::new();
        let mut i: usize = 0;
        while i < ids.len()
            invariant
                i <= ids@.len(),
                self.entries@ == old(self).entries@,
                forall|k: AssetId| self.entries@.contains_key(k) <==> ids@.contains(k),
                forall|k: AssetId| #[trigger] observed@.contains_key(k) ==> observed@[k].1 >= 1,
                forall|j: int| 0 <= j < i ==> #[trigger] observed@.contains_key(ids@[j]),
            decreases ids@.len() - i,
        {
            let id = ids[i];
            assert(ids@.contains(id));
            match self.entries.get(&id) {
                Some(entry) => {
                    let o = entry.observe();
                    observed.insert(id, o);
                },
                None => {},
            }
            i = i + 1;
        }
        proof {
            assert(i == ids@.len());
            assert forall|k: AssetId| #[trigger] self.entries@.contains_key(k)
                implies observed@.contains_key(k) && observed@[k].1 >= 1 by {
                assert(ids@.contains(k));
                let j = ids@.index_of(k);
                assert(observed@.contains_key(ids@[j]));
            }
        }
        let r = self.cleanup_with(&observed);
        proof {
            assert(observes_all(old(self).spec_entries(), observed@));
            assert(kept_after(old(self).spec_entries(), observed@) == self.spec_entries());
        }
        r
    }

    /// Runs a cleanup.
    pub fn force_cleanup(&mut self)
        requires
            old(self).wf(),
        ensures
            final(self).wf(),
            cleaned_by_rule(old(self).spec_entries(), final(self).spec_entries()),
            cleaned_from(old(self).spec_entries(), final(self).spec_entries()),
            final(self).spec_paths() == paths_after_cleanup(
                old(self).spec_paths(), old(self).spec_entries(), final(self).spec_entries()),
            final(self).spec_max_size() == old(self).spec_max_size(),
            final(self).spec_cleanup_threshold() == old(self).spec_cleanup_threshold(),
    {
        self.cleanup();
    }

    /// Drops every entry and path.
    pub fn clear(&mut self)
        ensures
            final(self).wf(),
            final(self).spec_entries() == Map::<AssetId, CacheEntry<R>>::empty(),
            final(self).spec_paths() == Map::<Seq<char>, AssetId>::empty(),
            final(self).spec_current_size() == 0,
            final(self).spec_max_size() == old(self).spec_max_size(),
            final(self).spec_cleanup_threshold() == old(self).spec_cleanup_threshold(),
    {
        self.entries.clear();
        self.path_to_id.clear();
        self.current_size_bytes = 0;
        proof {
            lemma_map_sum_empty::<AssetId, CacheEntry<R>>(|e: CacheEntry<R>| entry_size(e));
        }
    }

    /// The number of cached entries.
    pub fn entry_count(&self) -> (r: usize)
        ensures
            r == self.spec_entries().len(),
    {
        self.entries.len()
    }

    /// The byte total of the cached entries.
    pub fn total_size_bytes(&self) -> (r: usize)
        ensures
            r == self.spec_current_size(),
    {
        self.current_size_bytes
    }

    /// The bytes of the entry `id`, or zero if there is none.
    pub fn entry_size_bytes(&self, id: AssetId) -> (r: usize)
        ensures
            r == if self.spec_entries().contains_key(id) { self.spec_entries()[id].spec_size() } else { 0 },
    {
        match self.entries.get(&id) {
            Some(e) => e.size_bytes,
            None => 0,
        }
    }

    /// The capacity the cache was made with.
    pub fn max_size_bytes(&self) -> (r: usize)
        ensures
            r == self.spec_max_size(),
    {
        self.max_size_bytes
    }

    /// Every path in the index, each once.
    pub fn cached_paths(&self) -> (r: Vec<String>)
        requires
            self.wf(),
        ensures
            r@.map_values(|s: String| s@).no_duplicates(),
            forall|p: Seq<char>| self.spec_paths().contains_key(p)
                <==> r@.map_values(|s: String| s@).contains(p),
    {
        self.path_to_id.keys()
    }

    /// Whether every entry can be read once more without its read count overflowing.
    pub fn reads_countable(&self) -> (r: bool)
        ensures
            r == forall|k: AssetId| #[trigger] self.spec_entries().contains_key(k)
                ==> self.spec_entries()[k].spec_access_count() < u64::MAX,
    {
        let ids = map_keys(&self.entries);
        let mut i: usize = 0;
        while i < ids.len()
            invariant
                i <= ids@.len(),
                forall|k: AssetId| self.entries@.contains_key(k) <==> ids@.contains(k),
                forall|j: int| 0 <= j < i ==> #[trigger] self.entries@[ids@[j]].spec_access_count() < u64::MAX,
            decreases ids@.len() - i,
        {
            let id = ids[i];
            proof {
                assert(ids@.contains(id));
            }
            match self.entries.get(&id) {
                Some(entry) => {
                    if entry.access_count() == u64::MAX {
                        proof {
                            assert(self.entries@.contains_key(id));
                            assert(self.spec_entries().contains_key(id));
                            assert(!(self.spec_entries()[id].spec_access_count() < u64::MAX));
                        }
                        return false;
                    }
                },
                None => {},
            }
            i = i + 1;
        }
        proof {
            assert forall|k: AssetId| #[trigger] self.entries@.contains_key(k)
                implies self.entries@[k].spec_access_count() < u64::MAX by {
                assert(ids@.contains(k));
                let j = choose|j: int| 0 <= j < ids@.len() && ids@[j] == k;
                assert(self.entries@[ids@[j]].spec_access_count() < u64::MAX);
            }
        }
        true
    }

    /// The counts: entries, bytes, capacity, and the entries of each
    /// resource type.
    pub fn stats(&self) -> (r: CacheStats)
        requires
            self.wf(),
        ensures
            r.entry_count == self.spec_entries().len(),
            r.total_size_bytes == self.spec_current_size(),
            r.max_size_bytes == self.spec_max_size(),
            r.type_counts.wf(),
            forall|t: Seq<char>| #[trigger] r.type_counts.view().contains_key(t) <==> has_type(self.spec_entries(), t),
            forall|t: Seq<char>| #[trigger] r.type_counts.view().contains_key(t)
                ==> r.type_counts.view()[t] == type_count(self.spec_entries(), t),
    {
        let ids = map_keys(&self.entries);
        let ghost m = self.entries@;
        let mut counts: StrMap<usize> = StrMap::new();
        let mut i: usize = 0;
        proof {
            assert(ids@.take(0).to_set() =~= Set::<AssetId>::empty());
        }
        while i < ids.len()
            invariant
                i <= ids@.len(),
                m == self.entries@,
                ids@.no_duplicates(),
                forall|k: AssetId| m.contains_key(k) <==> ids@.contains(k),
                counts.wf(),
                forall|t: Seq<char>| #[trigger] counts.view().contains_key(t)
                    <==> exists|j: int| 0 <= j < i && #[trigger] m[ids@[j]].spec_asset_type() == t,
                forall|t: Seq<char>| #[trigger] counts.view().contains_key(t)
                    ==> counts.view()[t] == ids_of_type_in(m, ids@.take(i as int).to_set(), t).len()
                        && counts.view()[t] <= i,
            decreases ids@.len() - i,
        {
            let id = ids[i];
            proof {
                assert(ids@.contains(id));
                lemma_take_push_to_set(ids@, i as int);
                assert(!ids@.take(i as int).to_set().contains(id)) by {
                    if ids@.take(i as int).contains(id) {
                        let j = choose|j: int| 0 <= j < i && ids@.take(i as int)[j] == id;
                        assert(ids@[j] == ids@[i as int]);
                    }
                }
                vstd::seq_lib::seq_to_set_is_finite(ids@.take(i as int));
            }
            match self.entries.get(&id) {
                Some(entry) => {
                    let t = entry.asset_type.clone();
                    let ghost tv = t@;
                    let c: usize = match counts.get(t.as_str()) {
                        Some(c) => *c,
                        None => 0,
                    };
                    proof {
                        assert(m[id].spec_asset_type() == tv);
                        assert forall|u: Seq<char>| true implies
                            ids_of_type_in(m, ids@.take(i + 1).to_set(), u).len()
                                == ids_of_type_in(m, ids@.take(i as int).to_set(), u).len()
                                    + (if u == tv { 1nat } else { 0nat })
                            && (!counts.view().contains_key(u) ==> ids_of_type_in(m, ids@.take(i as int).to_set(), u).len() == 0) by {
                            lemma_type_count_insert(m, ids@.take(i as int).to_set(), id, u);
                            if !counts.view().contains_key(u) {
                                let a = ids_of_type_in(m, ids@.take(i as int).to_set(), u);
                                if a.len() != 0 {
                                    if !(exists|k: AssetId| a.contains(k)) {
                                        assert(a =~= Set::<AssetId>::empty());
                                    }
                                    let k = choose|k: AssetId| a.contains(k);
                                    assert(ids@.take(i as int).to_set().contains(k));
                                    let j = choose|j: int| 0 <= j < i && ids@.take(i as int)[j] == k;
                                    assert(m[ids@[j]].spec_asset_type() == u);
                                }
                            }
                        }
                    }
                    counts.insert(t, c + 1);
                    proof {
                        assert forall|u: Seq<char>| #[trigger] counts.view().contains_key(u)
                            <==> exists|j: int| 0 <= j < i + 1 && #[trigger] m[ids@[j]].spec_asset_type() == u by {
                            if u == tv {
                                assert(m[ids@[i as int]].spec_asset_type() == u);
                            } else if exists|j: int| 0 <= j < i + 1 && #[trigger] m[ids@[j]].spec_asset_type() == u {
                                let j = choose|j: int| 0 <= j < i + 1 && #[trigger] m[ids@[j]].spec_asset_type() == u;
                                assert(j < i);
                            }
                        }
                    }
                },
                None => {
                    proof { assert(false); }
                },
            }
            i = i + 1;
        }
        proof {
            assert(ids@.take(ids@.len() as int) =~= ids@);
            assert(ids@.to_set() =~= m.dom()) by {
                assert forall|k: AssetId| ids@.to_set().contains(k) <==> m.dom().contains(k) by {}
            }
            assert forall|t: Seq<char>| #[trigger] counts.view().contains_key(t) <==> has_type(self.spec_entries(), t) by {
                if has_type(self.spec_entries(), t) {
                    let k = choose|k: AssetId| #[trigger] m.contains_key(k) && m[k].spec_asset_type() == t;
                    assert(ids@.contains(k));
                    let j = choose|j: int| 0 <= j < ids@.len() && ids@[j] == k;
                    assert(m[ids@[j]].spec_asset_type() == t);
                }
                if counts.view().contains_key(t) {
                    let j = choose|j: int| 0 <= j < ids@.len() && #[trigger] m[ids@[j]].spec_asset_type() == t;
                    assert(m.contains_key(ids@[j]));
                }
            }
        }
        CacheStats {
            entry_count: ids.len(),
            total_size_bytes: self.current_size_bytes,
            max_size_bytes: self.max_size_bytes,
            type_counts: counts,
        }
    }

    /// The identifiers of the entries whose resource type is named `asset_type`, each once.
    pub fn ids_of_type(&self, asset_type: &str) -> (r: Vec<AssetId>)
        ensures
            r@.no_duplicates(),
            forall|k: AssetId| r@.contains(k) <==> self.spec_entries().contains_key(k)
                && self.spec_entries()[k].spec_asset_type() == asset_type@,
    {
        let wanted = owned(asset_type);
        let ids = map_keys(&self.entries);
        let mut r: Vec<AssetId> = Vec::new();
        let mut i: usize = 0;
        while i < ids.len()
            invariant
                i <= ids@.len(),
                ids@.no_duplicates(),
                wanted@ == asset_type@,
                forall|k: AssetId| self.entries@.contains_key(k) <==> ids@.contains(k),
                r@.no_duplicates(),
                forall|k: AssetId| r@.contains(k) ==> ids@.take(i as int).contains(k),
                forall|k: AssetId| r@.contains(k) <==> ids@.take(i as int).contains(k)
                    && self.entries@.contains_key(k) && self.entries@[k].spec_asset_type() == asset_type@,
            decreases ids@.len() - i,
        {
            let id = ids[i];
            proof {
                assert(ids@.contains(id));
                assert(ids@.take(i + 1) =~= ids@.take(i as int).push(id));
                assert(!ids@.take(i as int).contains(id)) by {
                    if ids@.take(i as int).contains(id) {
                        let j = choose|j: int| 0 <= j < i && ids@[j] == id;
                        assert(ids@[j] == ids@[i as int]);
                    }
                }
            }
            let ghost r0 = r@;
            let mut pushed = false;
            match self.entries.get(&id) {
                Some(entry) => {
                    if entry.asset_type == wanted {
                        r.push(id);
                        pushed = true;
                    }
                },
                None => {},
            }
            proof {
                assert(!r0.contains(id));
                if pushed {
                    assert(r@ == r0.push(id));
                    assert forall|a: int, b: int| 0 <= a < b < r@.len() implies r@[a] != r@[b] by {
                        if b == r@.len() - 1 {
                            assert(r0.contains(r@[a]));
                        } else {
                            assert(r@[a] == r0[a] && r@[b] == r0[b]);
                        }
                    }
                } else {
                    assert(r@ == r0);
                }
                assert(pushed == (self.entries@.contains_key(id) && self.entries@[id].spec_asset_type() == asset_type@));
                assert forall|k: AssetId| r@.contains(k) implies ids@.take(i + 1).contains(k) by {
                    if k == id {
                        assert(ids@.take(i + 1)[i as int] == id);
                    } else {
                        assert(r0.contains(k)) by {
                            let t = choose|t: int| 0 <= t < r@.len() && r@[t] == k;
                            assert(r0[t] == k);
                        }
                        let t = choose|t: int| 0 <= t < i && #[trigger] ids@.take(i as int)[t] == k;
                        assert(ids@.take(i + 1)[t] == k);
                    }
                }
                assert forall|k: AssetId| r@.contains(k) <==> (ids@.take(i + 1).contains(k)
                    && self.entries@.contains_key(k) && self.entries@[k].spec_asset_type() == asset_type@) by {
                    if k != id {
                        if r@.contains(k) {
                            let t = choose|t: int| 0 <= t < r@.len() && r@[t] == k;
                            assert(r0[t] == k);
                        }
                        if r0.contains(k) {
                            let u = choose|u: int| 0 <= u < r0.len() && r0[u] == k;
                            assert(r@[u] == k);
                        }
                        if ids@.take(i + 1).contains(k) {
                            let t = choose|t: int| 0 <= t < i + 1 && #[trigger] ids@.take(i + 1)[t] == k;
                            assert(ids@.take(i as int)[t] == k);
                        }
                    } else {
                        assert(ids@.take(i + 1)[i as int] == id);
                        if pushed {
                            assert(r@[r@.len() - 1] == id);
                        }
                    }
                }
            }
            i = i + 1;
        }
        proof {
            assert(ids@.take(ids@.len() as int) =~= ids@);
        }
        r
    }

    /// The resources whose type is named `asset_type`, in the order of `ids_of_type`.
    pub fn get_all_of_type(&self, asset_type: &str) -> (r: Vec<Arc<R>>)
        ensures
            exists|ids: Seq<AssetId>| {
                &&& ids.no_duplicates()
                &&& ids.len() == r@.len()
                &&& forall|k: AssetId| ids.contains(k) <==> self.spec_entries().contains_key(k)
                        && self.spec_entries()[k].spec_asset_type() == asset_type@
                &&& forall|j: int| 0 <= j < ids.len() ==> #[trigger] r@[j] == self.spec_entries()[ids[j]].spec_resource()
            },
    {
        let ids = self.ids_of_type(asset_type);
        let mut r: Vec<Arc<R>> = Vec::new();
        let mut i: usize = 0;
        while i < ids.len()
            invariant
                i <= ids@.len(),
                r@.len() == i,
                forall|k: AssetId| ids@.contains(k) ==> self.entries@.contains_key(k),
                forall|j: int| 0 <= j < i ==> #[trigger] r@[j] == self.entries@[ids@[j]].spec_resource(),
            decreases ids@.len() - i,
        {
            let id = ids[i];
            assert(ids@.contains(id));
            match self.entries.get(&id) {
                Some(entry) => {
                    r.push(arc_clone(&entry.resource));
                },
                None => {},
            }
            i = i + 1;
        }
        proof {
            let ids_s = ids@;
            assert(ids_s.len() == r@.len());
        }
        r
    }
}

/// Every identifier in `ids` names an entry of `m` that a cleanup may drop.
pub open spec fn all_droppable<R>(m: Map<AssetId, CacheEntry<R>>, ids: Seq<AssetId>) -> bool {
    forall|j: int| 0 <= j < ids.len() ==> droppable(m, #[trigger] ids[j])
}

/// `id` names an entry of `m` that a cleanup may drop.
pub open spec fn droppable<R>(m: Map<AssetId, CacheEntry<R>>, id: AssetId) -> bool {
    &&& m.contains_key(id)
    &&& m[id].spec_strategy() != CacheStrategy::Permanent
}

proof fn lemma_droppable_push<R>(m: Map<AssetId, CacheEntry<R>>, ids: Seq<AssetId>, id: AssetId)
    requires
        all_droppable(m, ids),
        m.contains_key(id),
        m[id].spec_strategy() != CacheStrategy::Permanent,
    ensures
        all_droppable(m, ids.push(id)),
{
    let s = ids.push(id);
    assert forall|j: int| 0 <= j < s.len() implies droppable(m, #[trigger] s[j]) by {
        if j < ids.len() {
            assert(s[j] == ids[j]);
            assert(droppable(m, ids[j]));
        } else {
            assert(s[j] == id);
        }
    }
}

/// `after` is `before` once `resource` was cached under `id` and `path`:
/// the entry is fresh, the path leads to it and the total grows by its size
/// (less the size of an entry it replaced); past the threshold a cleanup
/// follows.
pub open spec fn cache_inserted<R>(
    before: AssetCache<R>,
    after: AssetCache<R>,
    id: AssetId,
    resource: Arc<R>,
    path: Seq<char>,
    asset_type: Seq<char>,
    strategy: CacheStrategy,
    size_bytes: usize,
) -> bool {
    exists|e: CacheEntry<R>| {
        let inserted = before.spec_entries().insert(id, e);
        let paths = before.spec_paths().insert(path, id);
        let total = before.spec_current_size() - (if before.spec_entries().contains_key(id) {
            before.spec_entries()[id].spec_size() as int
        } else {
            0
        }) + size_bytes;
        &&& #[trigger] fresh_entry(e, resource, path, asset_type, strategy, size_bytes)
        &&& if total > before.spec_cleanup_threshold() {
                &&& cleaned_by_rule(inserted, after.spec_entries())
                &&& cleaned_from(inserted, after.spec_entries())
                &&& after.spec_paths() == paths_after_cleanup(paths, inserted, after.spec_entries())
            } else {
                &&& after.spec_entries() == inserted
                &&& after.spec_paths() == paths
                &&& after.spec_current_size() == total
            }
    }
}

/// What a read gives back of a write: once `resource` is cached under `id`
/// and `path` without passing the cleanup threshold, the path leads to `id`
/// and the entry there holds `resource`, read zero times. A permanent entry
/// is there whatever the threshold.
pub proof fn lemma_read_after_insert<R>(
    before: AssetCache<R>,
    after: AssetCache<R>,
    id: AssetId,
    resource: Arc<R>,
    path: Seq<char>,
    asset_type: Seq<char>,
    strategy: CacheStrategy,
    size_bytes: usize,
)
    requires
        cache_inserted(before, after, id, resource, path, asset_type, strategy, size_bytes),
    ensures
        before.spec_current_size() - (if before.spec_entries().contains_key(id) {
            before.spec_entries()[id].spec_size() as int
        } else {
            0
        }) + size_bytes <= before.spec_cleanup_threshold() ==> {
            &&& after.spec_paths().contains_key(path)
            &&& after.spec_paths()[path] == id
            &&& after.spec_entries().contains_key(id)
            &&& after.spec_entries()[id].spec_resource() == resource
            &&& after.spec_entries()[id].spec_access_count() == 0
        },
        strategy == CacheStrategy::Permanent ==> after.spec_entries().contains_key(id)
            && after.spec_entries()[id].spec_resource() == resource,
{
    let e = choose|e: CacheEntry<R>| {
        let inserted = before.spec_entries().insert(id, e);
        let paths = before.spec_paths().insert(path, id);
        let total = before.spec_current_size() - (if before.spec_entries().contains_key(id) {
            before.spec_entries()[id].spec_size() as int
        } else {
            0
        }) + size_bytes;
        &&& #[trigger] fresh_entry(e, resource, path, asset_type, strategy, size_bytes)
        &&& if total > before.spec_cleanup_threshold() {
                &&& cleaned_by_rule(inserted, after.spec_entries())
                &&& cleaned_from(inserted, after.spec_entries())
                &&& after.spec_paths() == paths_after_cleanup(paths, inserted, after.spec_entries())
            } else {
                &&& after.spec_entries() == inserted
                &&& after.spec_paths() == paths
                &&& after.spec_current_size() == total
            }
    };
    let inserted = before.spec_entries().insert(id, e);
    assert(inserted.contains_key(id));
}

/// `e` is an entry just made for `resource` with these attributes, not yet read.
pub open spec fn fresh_entry<R>(
    e: CacheEntry<R>,
    resource: Arc<R>,
    path: Seq<char>,
    asset_type: Seq<char>,
    strategy: CacheStrategy,
    size_bytes: usize,
) -> bool {
    &&& e.spec_resource() == resource
    &&& e.spec_access_count() == 0
    &&& e.spec_strategy() == strategy
    &&& e.spec_size() == size_bytes
    &&& e.spec_path() == path
    &&& e.spec_asset_type() == asset_type
}

/// `after` keeps some of the entries of `before`, unchanged, and every permanent one.
pub open spec fn cleaned_from<R>(before: Map<AssetId, CacheEntry<R>>, after: Map<AssetId, CacheEntry<R>>) -> bool {
    &&& forall|k: AssetId| #[trigger] after.contains_key(k) ==> before.contains_key(k) && after[k] == before[k]
    &&& forall|k: AssetId| #[trigger] before.contains_key(k)
            && before[k].spec_strategy() == CacheStrategy::Permanent ==> after.contains_key(k)
}

/// The entry under `k` is dropped by a cleanup that observed `obs`: it is
/// there, it was observed, and the cleanup rule lets it go for the idle
/// seconds and strong count observed.
pub open spec fn dropped_by<R>(m: Map<AssetId, CacheEntry<R>>, obs: Map<AssetId, (u64, usize)>, k: AssetId) -> bool {
    &&& m.contains_key(k)
    &&& obs.contains_key(k)
    &&& cleanup_allowed(m[k].spec_strategy(), obs[k].0, obs[k].1)
}

/// The entries of `m` that a cleanup that observed `obs` keeps.
pub open spec fn kept_after<R>(m: Map<AssetId, CacheEntry<R>>, obs: Map<AssetId, (u64, usize)>) -> Map<AssetId, CacheEntry<R>> {
    m.restrict(Set::new(|k: AssetId| !dropped_by(m, obs, k)))
}

/// `obs` observes every entry of `m`, each with at least one strong reference.
pub open spec fn observes_all<R>(m: Map<AssetId, CacheEntry<R>>, obs: Map<AssetId, (u64, usize)>) -> bool {
    forall|k: AssetId| #[trigger] m.contains_key(k) ==> obs.contains_key(k) && obs[k].1 >= 1
}

/// `after` is what a cleanup of `before` keeps for some observation of
/// every entry, each with at least one strong reference: the cleanup rule
/// decided each entry on the idle seconds and strong count read then.
pub open spec fn cleaned_by_rule<R>(before: Map<AssetId, CacheEntry<R>>, after: Map<AssetId, CacheEntry<R>>) -> bool {
    exists|obs: Map<AssetId, (u64, usize)>| observes_all(before, obs) && #[trigger] kept_after(before, obs) == after
}

/// The path index after the entries missing from `after` were dropped one
/// after another: each drop takes the dropped entry's path out of the index.
pub open spec fn paths_after_cleanup<R>(
    paths: Map<Seq<char>, AssetId>,
    before: Map<AssetId, CacheEntry<R>>,
    after: Map<AssetId, CacheEntry<R>>,
) -> Map<Seq<char>, AssetId> {
    paths.remove_keys(
        Set::new(|p: Seq<char>| exists|k: AssetId| #[trigger] before.contains_key(k) && !after.contains_key(k)
            && before[k].spec_path() == p))
}

/// The path index after dropping the entries listed in `gone`, one by one.
pub open spec fn remove_paths<R>(
    paths: Map<Seq<char>, AssetId>,
    entries: Map<AssetId, CacheEntry<R>>,
    gone: Seq<AssetId>,
) -> Map<Seq<char>, AssetId>
    decreases gone.len(),
{
    if gone.len() == 0 {
        paths
    } else {
        remove_paths(paths, entries, gone.drop_last()).remove(entries[gone.last()].spec_path())
    }
}

proof fn lemma_remove_paths<R>(
    paths: Map<Seq<char>, AssetId>,
    entries: Map<AssetId, CacheEntry<R>>,
    gone: Seq<AssetId>,
)
    ensures
        remove_paths(paths, entries, gone) == paths.remove_keys(
            Set::new(|p: Seq<char>| exists|j: int| 0 <= j < gone.len() && #[trigger] entries[gone[j]].spec_path() == p)),
    decreases gone.len(),
{
    let s = Set::new(|p: Seq<char>| exists|j: int| 0 <= j < gone.len() && #[trigger] entries[gone[j]].spec_path() == p);
    if gone.len() == 0 {
        assert(paths.remove_keys(s) =~= paths);
    } else {
        let g0 = gone.drop_last();
        lemma_remove_paths(paths, entries, g0);
        let s0 = Set::new(|p: Seq<char>| exists|j: int| 0 <= j < g0.len() && #[trigger] entries[g0[j]].spec_path() == p);
        let last = entries[gone.last()].spec_path();
        assert forall|p: Seq<char>| s.contains(p) <==> s0.contains(p) || p == last by {
            if s.contains(p) {
                let j = choose|j: int| 0 <= j < gone.len() && #[trigger] entries[gone[j]].spec_path() == p;
                if j < gone.len() - 1 {
                    assert(entries[g0[j]].spec_path() == p);
                }
            }
            if s0.contains(p) {
                let j = choose|j: int| 0 <= j < g0.len() && #[trigger] entries[g0[j]].spec_path() == p;
                assert(entries[gone[j]].spec_path() == p);
            }
            if p == last {
                assert(entries[gone[gone.len() - 1]].spec_path() == p);
            }
        }
        assert(paths.remove_keys(s0).remove(last) =~= paths.remove_keys(s));
    }
}

proof fn lemma_paths_after_cleanup<R>(
    paths: Map<Seq<char>, AssetId>,
    before: Map<AssetId, CacheEntry<R>>,
    gone: Seq<AssetId>,
    after: Map<AssetId, CacheEntry<R>>,
)
    requires
        forall|j: int| 0 <= j < gone.len() ==> #[trigger] before.contains_key(gone[j]),
        after == before.remove_keys(gone.to_set()),
    ensures
        remove_paths(paths, before, gone) == paths_after_cleanup(paths, before, after),
{
    lemma_remove_paths(paths, before, gone);
    let s = Set::new(|p: Seq<char>| exists|j: int| 0 <= j < gone.len() && #[trigger] before[gone[j]].spec_path() == p);
    let t = Set::new(|p: Seq<char>| exists|k: AssetId| #[trigger] before.contains_key(k) && !after.contains_key(k)
        && before[k].spec_path() == p);
    assert forall|p: Seq<char>| s.contains(p) <==> t.contains(p) by {
        if s.contains(p) {
            let j = choose|j: int| 0 <= j < gone.len() && #[trigger] before[gone[j]].spec_path() == p;
            assert(gone.contains(gone[j]));
            assert(gone.to_set().contains(gone[j]));
            assert(!after.contains_key(gone[j]));
            assert(before.contains_key(gone[j]));
        }
        if t.contains(p) {
            let k = choose|k: AssetId| #[trigger] before.contains_key(k) && !after.contains_key(k)
                && before[k].spec_path() == p;
            assert(gone.to_set().contains(k));
            let j = choose|j: int| 0 <= j < gone.len() && gone[j] == k;
            assert(before[gone[j]].spec_path() == p);
        }
    }
    assert(s =~= t);
}

/// The entries of `ids` (among those of `m`) whose resource type is named `t`.
pub open spec fn ids_of_type_in<R>(m: Map<AssetId, CacheEntry<R>>, ids: Set<AssetId>, t: Seq<char>) -> Set<AssetId> {
    ids.filter(|k: AssetId| m.contains_key(k) && m[k].spec_asset_type() == t)
}

/// How many entries of `m` have a resource type named `t`.
pub open spec fn type_count<R>(m: Map<AssetId, CacheEntry<R>>, t: Seq<char>) -> nat {
    ids_of_type_in(m, m.dom(), t).len()
}

/// Whether some entry of `m` has a resource type named `t`.
pub open spec fn has_type<R>(m: Map<AssetId, CacheEntry<R>>, t: Seq<char>) -> bool {
    exists|k: AssetId| #[trigger] m.contains_key(k) && m[k].spec_asset_type() == t
}

/// The counts of a cache: its entries, its bytes, its capacity, and its
/// entries by resource type.
pub struct CacheStats {
    pub entry_count: usize,
    pub total_size_bytes: usize,
    pub max_size_bytes: usize,
    pub type_counts: StrMap<usize>,
}

impl CacheStats {
    /// A resource type with the most entries and their number; none for an
    /// empty cache. Which of several types with as many entries comes out
    /// is not said.
    pub fn most_common_type(&self) -> (r: Option<(String, usize)>)
        requires
            self.type_counts.wf(),
        ensures
            r is None <==> self.type_counts.view().len() == 0,
            r matches Some((t, c)) ==> self.type_counts.view().contains_key(t@)
                && self.type_counts.view()[t@] == c
                && forall|u: Seq<char>| #[trigger] self.type_counts.view().contains_key(u)
                    ==> self.type_counts.view()[u] <= c,
    {
        let n = self.type_counts.len();
        if n == 0 {
            return None;
        }
        proof {
            self.type_counts.lemma_keys();
        }
        let ghost ks = self.type_counts.key_seq();
        let mut best: usize = 0;
        let mut i: usize = 1;
        while i < n
            invariant
                self.type_counts.wf(),
                n == ks.len(),
                ks == self.type_counts.key_seq(),
                1 <= i <= n,
                best < i,
                forall|j: int| 0 <= j < i ==> self.type_counts.view()[#[trigger] ks[j]]
                    <= self.type_counts.view()[ks[best as int]],
            decreases n - i,
        {
            let c = *self.type_counts.value_at(i);
            let b = *self.type_counts.value_at(best);
            if c > b {
                best = i;
            }
            i = i + 1;
        }
        let t = self.type_counts.key_at(best).clone();
        let c = *self.type_counts.value_at(best);
        proof {
            self.type_counts.lemma_keys();
            assert forall|u: Seq<char>| #[trigger] self.type_counts.view().contains_key(u)
                implies self.type_counts.view()[u] <= c by {
                assert(ks.contains(u));
                let j = choose|j: int| 0 <= j < ks.len() && ks[j] == u;
                assert(self.type_counts.view()[ks[j]] <= c);
            }
        }
        Some((t, c))
    }
}

/// Adding an identifier to the set looked at adds it to the entries of its type.
proof fn lemma_type_count_insert<R>(m: Map<AssetId, CacheEntry<R>>, ids: Set<AssetId>, id: AssetId, t: Seq<char>)
    requires
        ids.finite(),
        !ids.contains(id),
    ensures
        ids_of_type_in(m, ids.insert(id), t).len() == ids_of_type_in(m, ids, t).len()
            + if m.contains_key(id) && m[id].spec_asset_type() == t { 1nat } else { 0nat },
        ids_of_type_in(m, ids, t).finite(),
{
    let a = ids_of_type_in(m, ids, t);
    let b = ids_of_type_in(m, ids.insert(id), t);
    ids.lemma_len_filter(|k: AssetId| m.contains_key(k) && m[k].spec_asset_type() == t);
    if m.contains_key(id) && m[id].spec_asset_type() == t {
        assert(b =~= a.insert(id));
    } else {
        assert(b =~= a);
    }
}

} // verus!
