//! Accounting of the allocations the engine reports.
use std::collections::HashMap;
use std::time::{Duration, Instant};
use vstd::prelude::*;
use crate::collections::{lemma_map_sum_insert, lemma_map_sum_remove, lemma_map_sum_empty, lemma_take_push_to_set, map_keys, map_sum};
use crate::clock::{has_elapsed, now, unix_millis};
use crate::performance::{duration_new, duration_nanos, duration_of, MemoryUsage};

verus! {

/// The direction memory use is heading.
#[derive(Debug, Clone, Copy, PartialEq, Eq, Structural)]
pub enum TrendDirection {
    Increasing,
    Decreasing,
    Stable,
    Volatile,
}

broadcast use vstd::std_specs::hash::group_hash_axioms;

/// What the tracker keeps about one live allocation.
pub struct AllocationInfo {
    pub size: usize,
    pub timestamp: Instant,
    pub location: String,
    pub tag: Option<String>,
}

/// The tracker's counters at one moment.
#[derive(Debug, Clone, Copy, PartialEq, Eq, Structural)]
pub struct MemorySnapshot {
    pub timestamp: u128,
    pub total_allocated: usize,
    pub current_allocated: usize,
    pub allocation_count: usize,
    pub largest_free_block: usize,
}

/// The most snapshots the tracker keeps.
pub const MAX_SNAPSHOTS: usize = 1000;

/// The heap size the tracker reports (100 MiB).
pub const REPORTED_HEAP_SIZE: usize = 104_857_600;

/// The stack size the tracker reports (8 KiB).
pub const REPORTED_STACK_SIZE: usize = 8192;

/// The largest free block the tracker reports (1 MiB).
pub const REPORTED_LARGEST_FREE_BLOCK: usize = 1_048_576;

/// The size of an allocation, as a natural number.
pub open spec fn alloc_size(info: AllocationInfo) -> nat {
    info.size as nat
}

/// Keeps the live allocations by address and counts what was allocated and freed.
pub struct MemoryTracker {
    allocations: HashMap<usize, AllocationInfo>,
    total_allocated: usize,
    peak_allocated: usize,
    current_allocated: usize,
    allocation_count: usize,
    deallocation_count: usize,
    history: Vec<MemorySnapshot>,
    sample_interval: Duration,
    last_sample: Instant,
    enabled: bool,
}

/// The counters of a memory tracker.
pub struct TrackerCounters {
    pub total_allocated: nat,
    pub peak_allocated: nat,
    pub current_allocated: nat,
    pub allocation_count: nat,
    pub deallocation_count: nat,
}

impl MemoryTracker {
    /// The live allocations by address.
    pub closed spec fn spec_allocations(&self) -> Map<usize, AllocationInfo> {
        self.allocations@
    }

    /// The counters.
    pub closed spec fn spec_counters(&self) -> TrackerCounters {
        TrackerCounters {
            total_allocated: self.total_allocated as nat,
            peak_allocated: self.peak_allocated as nat,
            current_allocated: self.current_allocated as nat,
            allocation_count: self.allocation_count as nat,
            deallocation_count: self.deallocation_count as nat,
        }
    }

    /// Whether the tracker records anything.
    pub closed spec fn spec_enabled(&self) -> bool {
        self.enabled
    }

    /// The snapshots taken so far, oldest first.
    pub closed spec fn spec_history(&self) -> Seq<MemorySnapshot> {
        self.history@
    }

    /// How long the tracker waits between two snapshots.
    pub closed spec fn spec_sample_interval(&self) -> Duration {
        self.sample_interval
    }

    /// What holds of the counters at every moment: the peak is at least the
    /// current total, which is at least the bytes of the live allocations;
    /// every live allocation and every release was counted as an allocation;
    /// at most a thousand snapshots are kept.
    pub closed spec fn wf(&self) -> bool {
        &&& self.peak_allocated >= self.current_allocated
        &&& self.total_allocated >= self.current_allocated
        &&& self.current_allocated >= map_sum(self.allocations@, |i: AllocationInfo| alloc_size(i))
        &&& self.allocation_count >= self.deallocation_count + self.allocations@.len()
        &&& self.history@.len() <= MAX_SNAPSHOTS
    }

    /// A tracker with nothing recorded, sampling every 100 ms.
    pub fn new() -> (r: Self)
        ensures
            r.wf(),
            r.spec_allocations() == Map::<usize, AllocationInfo>::empty(),
            r.spec_counters() == (TrackerCounters {
                total_allocated: 0,
                peak_allocated: 0,
                current_allocated: 0,
                allocation_count: 0,
                deallocation_count: 0,
            }),
            r.spec_enabled(),
            r.spec_history() == Seq::<MemorySnapshot>::empty(),
            r.spec_sample_interval() == duration_of(0, 100_000_000),
    {
        let r = MemoryTracker {
            allocations: HashMap::new(),
            total_allocated: 0,
            peak_allocated: 0,
            current_allocated: 0,
            allocation_count: 0,
            deallocation_count: 0,
            history: Vec::new(),
            sample_interval: duration_new(0, 100_000_000),
            last_sample: now(),
            enabled: true,
        };
        proof {
            lemma_map_sum_empty::<usize, AllocationInfo>(|i: AllocationInfo| alloc_size(i));
        }
        r
    }

    /// Turns recording on or off.
    pub fn set_enabled(&mut self, enabled: bool)
        requires
            old(self).wf(),
        ensures
            final(self).wf(),
            final(self).spec_enabled() == enabled,
            final(self).spec_allocations() == old(self).spec_allocations(),
            final(self).spec_counters() == old(self).spec_counters(),
            final(self).spec_history() == old(self).spec_history(),
    {
        self.enabled = enabled;
    }

    /// Sets how often the counters are sampled.
    pub fn set_sample_interval(&mut self, interval: Duration)
        requires
            old(self).wf(),
        ensures
            final(self).wf(),
            final(self).spec_enabled() == old(self).spec_enabled(),
            final(self).spec_allocations() == old(self).spec_allocations(),
            final(self).spec_counters() == old(self).spec_counters(),
            final(self).spec_history() == old(self).spec_history(),
            final(self).spec_sample_interval() == interval,
    {
        self.sample_interval = interval;
    }

    /// Records an allocation of `size` bytes at `address`, replacing what was
    /// kept for that address, and may take a snapshot.
    pub fn record_allocation(&mut self, address: usize, size: usize, location: String)
        requires
            old(self).wf(),
            old(self).spec_enabled() ==> old(self).spec_counters().total_allocated + size <= usize::MAX,
            old(self).spec_enabled() ==> old(self).spec_counters().allocation_count < usize::MAX,
        ensures
            final(self).wf(),
            final(self).spec_enabled() == old(self).spec_enabled(),
            !old(self).spec_enabled() ==> final(self).spec_allocations() == old(self).spec_allocations()
                && final(self).spec_counters() == old(self).spec_counters()
                && final(self).spec_history() == old(self).spec_history(),
            old(self).spec_enabled() ==> allocation_recorded(*old(self), *final(self), address, size, location@),
    {
        if !self.enabled {
            return;
        }
        let info = AllocationInfo { size, timestamp: now(), location, tag: None };
        let ghost f = |i: AllocationInfo| alloc_size(i);
        let ghost old_allocs = self.allocations@;
        let ghost new_info = info;
        proof {
            lemma_map_sum_insert(old_allocs, f, address, new_info);
            if old_allocs.contains_key(address) {
                lemma_map_sum_remove(old_allocs, f, address);
            } else {
                assert(old_allocs.remove(address) =~= old_allocs);
            }
            if !old_allocs.contains_key(address) {
                assert(old_allocs.insert(address, new_info).dom() =~= old_allocs.dom().insert(address));
            } else {
                assert(old_allocs.insert(address, new_info).dom() =~= old_allocs.dom());
            }
        }
        self.allocations.insert(address, info);
        self.total_allocated = self.total_allocated + size;
        self.current_allocated = self.current_allocated + size;
        self.allocation_count = self.allocation_count + 1;
        if self.current_allocated > self.peak_allocated {
            self.peak_allocated = self.current_allocated;
        }
        self.maybe_sample();
    }

    /// Records that the allocation at `address` was freed, if it is known,
    /// and may take a snapshot.
    pub fn record_deallocation(&mut self, address: usize)
        requires
            old(self).wf(),
        ensures
            final(self).wf(),
            final(self).spec_enabled() == old(self).spec_enabled(),
            !old(self).spec_enabled() ==> final(self).spec_allocations() == old(self).spec_allocations()
                && final(self).spec_counters() == old(self).spec_counters()
                && final(self).spec_history() == old(self).spec_history(),
            old(self).spec_enabled() ==> deallocation_recorded(*old(self), *final(self), address),
    {
        if !self.enabled {
            return;
        }
        let ghost f = |i: AllocationInfo| alloc_size(i);
        let ghost old_allocs = self.allocations@;
        match self.allocations.remove(&address) {
            Some(info) => {
                proof {
                    lemma_map_sum_remove(old_allocs, f, address);
                }
                self.current_allocated = self.current_allocated - info.size;
                self.deallocation_count = self.deallocation_count + 1;
            },
            None => {
                proof { assert(old_allocs.remove(address) =~= old_allocs); }
            },
        }
        self.maybe_sample();
    }

    /// Attaches a tag to the allocation at `address`, if it is known.
    pub fn tag_allocation(&mut self, address: usize, tag: String)
        requires
            old(self).wf(),
        ensures
            final(self).wf(),
            final(self).spec_enabled() == old(self).spec_enabled(),
            final(self).spec_counters() == old(self).spec_counters(),
            final(self).spec_history() == old(self).spec_history(),
            final(self).spec_allocations().dom() == old(self).spec_allocations().dom(),
            forall|a: usize| a != address && #[trigger] old(self).spec_allocations().contains_key(a)
                ==> final(self).spec_allocations()[a] == old(self).spec_allocations()[a],
            old(self).spec_allocations().contains_key(address) ==> {
                let i0 = old(self).spec_allocations()[address];
                let i1 = final(self).spec_allocations()[address];
                &&& i1.size == i0.size
                &&& i1.location == i0.location
                &&& i1.timestamp == i0.timestamp
                &&& i1.tag == Some(tag)
            },
    {
        let ghost f = |i: AllocationInfo| alloc_size(i);
        let ghost old_allocs = self.allocations@;
        match self.allocations.remove(&address) {
            Some(info) => {
                let tagged = AllocationInfo {
                    size: info.size,
                    timestamp: info.timestamp,
                    location: info.location,
                    tag: Some(tag),
                };
                let ghost t = tagged;
                self.allocations.insert(address, tagged);
                proof {
                    lemma_map_sum_remove(old_allocs, f, address);
                    lemma_map_sum_insert(old_allocs.remove(address), f, address, t);
                    assert(old_allocs.remove(address).remove(address) =~= old_allocs.remove(address));
                    assert(self.allocations@ == old_allocs.remove(address).insert(address, t));
                    assert(self.allocations@.dom() =~= old_allocs.dom());
                }
            },
            None => {
                proof { assert(self.allocations@ =~= old_allocs); }
            },
        }
    }

    /// The counters, with the reported heap and stack sizes.
    pub fn get_stats(&self) -> (r: MemoryUsage)
        ensures
            r.total_allocated == self.spec_counters().total_allocated,
            r.peak_allocated == self.spec_counters().peak_allocated,
            r.current_allocated == self.spec_counters().current_allocated,
            r.allocation_count == self.spec_counters().allocation_count,
            r.deallocation_count == self.spec_counters().deallocation_count,
            r.heap_size == REPORTED_HEAP_SIZE,
            r.stack_size == REPORTED_STACK_SIZE,
    {
        MemoryUsage {
            total_allocated: self.total_allocated,
            peak_allocated: self.peak_allocated,
            current_allocated: self.current_allocated,
            allocation_count: self.allocation_count,
            deallocation_count: self.deallocation_count,
            heap_size: REPORTED_HEAP_SIZE,
            stack_size: REPORTED_STACK_SIZE,
        }
    }

    /// The snapshots taken so far, oldest first.
    pub fn history(&self) -> (r: &Vec<MemorySnapshot>)
        ensures
            r@ == self.spec_history(),
    {
        &self.history
    }

    /// The free space the tracker reports: the reported heap size less the current total.
    pub fn total_free_space(&self) -> (r: usize)
        requires
            self.spec_counters().current_allocated <= REPORTED_HEAP_SIZE,
        ensures
            r == REPORTED_HEAP_SIZE - self.spec_counters().current_allocated,
    {
        REPORTED_HEAP_SIZE - self.current_allocated
    }

    /// Forgets every allocation, counter and snapshot.
    pub fn reset(&mut self)
        ensures
            final(self).wf(),
            final(self).spec_allocations() == Map::<usize, AllocationInfo>::empty(),
            final(self).spec_counters() == (TrackerCounters {
                total_allocated: 0,
                peak_allocated: 0,
                current_allocated: 0,
                allocation_count: 0,
                deallocation_count: 0,
            }),
            final(self).spec_enabled() == old(self).spec_enabled(),
            final(self).spec_history() == Seq::<MemorySnapshot>::empty(),
    {
        self.allocations.clear();
        self.total_allocated = 0;
        self.peak_allocated = 0;
        self.current_allocated = 0;
        self.allocation_count = 0;
        self.deallocation_count = 0;
        self.history.clear();
        self.last_sample = now();
        proof {
            lemma_map_sum_empty::<usize, AllocationInfo>(|i: AllocationInfo| alloc_size(i));
        }
    }

    /// Takes a snapshot if the sample interval has passed since the last one.
    fn maybe_sample(&mut self)
        requires
            old(self).wf(),
        ensures
            final(self).wf(),
            final(self).spec_enabled() == old(self).spec_enabled(),
            final(self).spec_allocations() == old(self).spec_allocations(),
            final(self).spec_counters() == old(self).spec_counters(),
            sampled(old(self).spec_history(), final(self).spec_history(), old(self).spec_counters()),
            final(self).spec_sample_interval() == old(self).spec_sample_interval(),
            duration_nanos(old(self).spec_sample_interval()) == 0 ==> exists|ts: u128| final(self).spec_history()
                == keep_last(old(self).spec_history().push(snapshot_of(ts, old(self).spec_counters())),
                MAX_SNAPSHOTS as nat),
    {
        if has_elapsed(&self.last_sample, self.sample_interval) {
            self.sample();
            self.last_sample = now();
        }
    }

    /// Appends a snapshot of the counters, dropping the oldest beyond a thousand.
    fn sample(&mut self)
        requires
            old(self).wf(),
        ensures
            final(self).wf(),
            final(self).spec_enabled() == old(self).spec_enabled(),
            final(self).spec_allocations() == old(self).spec_allocations(),
            final(self).spec_counters() == old(self).spec_counters(),
            final(self).spec_sample_interval() == old(self).spec_sample_interval(),
            exists|ts: u128| final(self).spec_history() == keep_last(
                old(self).spec_history().push(snapshot_of(ts, old(self).spec_counters())),
                MAX_SNAPSHOTS as nat,
            ),
    {
        let snapshot = MemorySnapshot {
            timestamp: unix_millis(),
            total_allocated: self.total_allocated,
            current_allocated: self.current_allocated,
            allocation_count: self.allocation_count,
            largest_free_block: REPORTED_LARGEST_FREE_BLOCK,
        };
        let ghost pushed = self.history@.push(snapshot);
        self.history.push(snapshot);
        if self.history.len() > MAX_SNAPSHOTS {
            self.history.remove(0);
        }
        proof {
            assert(snapshot == snapshot_of(snapshot.timestamp, old(self).spec_counters()));
            if pushed.len() > MAX_SNAPSHOTS {
                assert(self.history@ =~= pushed.subrange(1, pushed.len() as int));
            } else {
                assert(self.history@ =~= pushed);
            }
        }
    }

    proof fn lemma_bucket_total_bound_self(&self, bucket_size: usize, b: int, x: Set<usize>)
        requires
            self.wf(),
        ensures
            bucket_total(self.allocations@.restrict(x), bucket_size, b) <= self.current_allocated,
    {
        lemma_bucket_total_bound(self.allocations@, bucket_size, b, x);
    }

    /// The allocated bytes by address bucket: for each bucket that holds a live
    /// allocation, the bucket's start and the bytes allocated in it, by increasing start.
    pub fn get_memory_heatmap(&self, bucket_size: usize) -> (r: Vec<(usize, usize)>)
        requires
            self.wf(),
            bucket_size > 0,
        ensures
            forall|i: int, j: int| 0 <= i < j < r@.len() ==> r@[i].0 < r@[j].0,
            forall|a: usize| #[trigger] self.spec_allocations().contains_key(a)
                ==> exists|i: int| 0 <= i < r@.len() && r@[i].0 == bucket_of(a, bucket_size),
            forall|i: int| 0 <= i < r@.len() ==> #[trigger] heatmap_entry(
                self.spec_allocations(), bucket_size, r@[i]),
    {
        let ghost m = self.allocations@;
        let addrs = map_keys(&self.allocations);
        let mut r: Vec<(usize, usize)> = Vec::new();
        let mut k: usize = 0;
        while k < addrs.len()
            invariant
                k <= addrs@.len(),
                addrs@.no_duplicates(),
                forall|a: usize| m.contains_key(a) <==> addrs@.contains(a),
                m == self.allocations@,
                bucket_size > 0,
                self.wf(),
                forall|i: int, j: int| 0 <= i < j < r@.len() ==> r@[i].0 < r@[j].0,
                forall|j: int| 0 <= j < k ==> exists|i: int| 0 <= i < r@.len()
                    && r@[i].0 == bucket_of(#[trigger] addrs@[j], bucket_size),
                forall|i: int| 0 <= i < r@.len() ==> #[trigger] partial_entry(
                    m, addrs@, k as int, bucket_size, r@[i]),
            decreases addrs@.len() - k,
        {
            let a = addrs[k];
            proof {
                assert(addrs@.contains(a));
                lemma_bucket_of(a, bucket_size);
            }
            let size = match self.allocations.get(&a) {
                Some(info) => info.size,
                None => 0,
            };
            let b = (a / bucket_size) * bucket_size;
            proof {
                assert(b == bucket_of(a, bucket_size));
                assert(size == m[a].size);
                lemma_take_push_to_set(addrs@, k as int);
                lemma_bucket_total_step(m, addrs@, k as int, bucket_size);
            }
            let mut pos: usize = 0;
            while pos < r.len() && r[pos].0 < b
                invariant
                    pos <= r@.len(),
                    forall|i: int| 0 <= i < pos ==> r@[i].0 < b,
                decreases r@.len() - pos,
            {
                pos = pos + 1;
            }
            let ghost r0 = r@;
            let ghost mk = m.restrict(addrs@.take(k as int).to_set());
            let ghost mk1 = m.restrict(addrs@.take(k + 1).to_set());
            let found = pos < r.len() && r[pos].0 == b;
            if found {
                proof {
                    assert(partial_entry(m, addrs@, k as int, bucket_size, r0[pos as int]));
                    self.lemma_bucket_total_bound_self(bucket_size, b as int, addrs@.take(k + 1).to_set());
                    assert(r0[pos as int].1 + size == bucket_total(mk1, bucket_size, b as int));
                }
                let total = r[pos].1 + size;
                r.set(pos, (b, total));
            } else {
                r.insert(pos, (b, size));
            }
            proof {
                if !found {
                    assert forall|i: int| 0 <= i < r0.len() implies r0[i].0 != b by {
                        if i >= pos {
                            assert(r0[pos as int].0 > b);
                            if i > pos {
                                assert(r0[pos as int].0 < r0[i].0);
                            }
                        }
                    }
                    assert forall|x: usize| #[trigger] mk.contains_key(x) implies bucket_of(x, bucket_size) != b by {
                        assert(addrs@.take(k as int).to_set().contains(x));
                        let j = choose|j: int| 0 <= j < k && #[trigger] addrs@.take(k as int)[j] == x;
                        assert(addrs@[j] == x);
                        let i = choose|i: int| 0 <= i < r0.len() && r0[i].0 == bucket_of(#[trigger] addrs@[j], bucket_size);
                    }
                    lemma_bucket_total_zero(mk, bucket_size, b as int);
                }
                assert forall|i: int, j: int| 0 <= i < j < r@.len() implies r@[i].0 < r@[j].0 by {
                    if found {
                        assert(r@[i].0 == r0[i].0 && r@[j].0 == r0[j].0);
                    } else {
                        if pos < r0.len() {
                            assert(r0[pos as int].0 > b);
                        }
                        if j < pos {
                            assert(r@[i] == r0[i] && r@[j] == r0[j]);
                        } else if j == pos {
                            assert(r@[i] == r0[i]);
                        } else if i < pos {
                            assert(r@[i] == r0[i] && r@[j] == r0[j - 1]);
                            if j - 1 > pos {
                                assert(r0[pos as int].0 < r0[j - 1].0);
                            }
                        } else if i == pos {
                            assert(r@[j] == r0[j - 1]);
                            if j - 1 > pos {
                                assert(r0[pos as int].0 < r0[j - 1].0);
                            }
                        } else {
                            assert(r@[i] == r0[i - 1] && r@[j] == r0[j - 1]);
                        }
                    }
                }
                assert forall|j: int| 0 <= j < k + 1 implies exists|i: int| 0 <= i < r@.len()
                    && r@[i].0 == bucket_of(#[trigger] addrs@[j], bucket_size) by {
                    if j == k {
                        assert(r@[pos as int].0 == b);
                    } else {
                        let i = choose|i: int| 0 <= i < r0.len() && r0[i].0 == bucket_of(#[trigger] addrs@[j], bucket_size);
                        if found || i < pos {
                            assert(r@[i].0 == r0[i].0);
                        } else {
                            assert(r@[i + 1].0 == r0[i].0);
                        }
                    }
                }
                assert forall|i: int| 0 <= i < r@.len() implies #[trigger] partial_entry(
                    m, addrs@, k + 1, bucket_size, r@[i]) by {
                    if i == pos {
                        assert(bucket_of(addrs@[k as int], bucket_size) == r@[i].0);
                    } else {
                        let i0 = if found || i < pos { i } else { i - 1 };
                        assert(r@[i] == r0[i0]);
                        assert(partial_entry(m, addrs@, k as int, bucket_size, r0[i0]));
                        assert(r0[i0].0 != b) by {
                            if found {
                                if i0 < pos {
                                    assert(r0[i0].0 < r0[pos as int].0);
                                } else {
                                    assert(r0[pos as int].0 < r0[i0].0);
                                }
                            } else {
                                if i0 >= pos {
                                    assert(r0[pos as int].0 > b);
                                    if i0 > pos {
                                        assert(r0[pos as int].0 < r0[i0].0);
                                    }
                                }
                            }
                        }
                        let j = choose|j: int| 0 <= j < k && bucket_of(#[trigger] addrs@[j], bucket_size) == r0[i0].0;
                        assert(0 <= j < k + 1 && bucket_of(addrs@[j], bucket_size) == r@[i].0);
                    }
                }
            }
            k = k + 1;
        }
        proof {
            assert(addrs@.take(addrs@.len() as int) =~= addrs@);
            assert(addrs@.to_set() =~= m.dom());
            assert(m.restrict(m.dom()) =~= m);
            assert forall|a: usize| #[trigger] m.contains_key(a) implies exists|i: int| 0 <= i < r@.len()
                && r@[i].0 == bucket_of(a, bucket_size) by {
                assert(addrs@.contains(a));
                let j = choose|j: int| 0 <= j < addrs@.len() && addrs@[j] == a;
                assert(exists|i: int| 0 <= i < r@.len() && r@[i].0 == bucket_of(addrs@[j], bucket_size));
            }
            assert forall|i: int| 0 <= i < r@.len() implies #[trigger] heatmap_entry(m, bucket_size, r@[i]) by {
                assert(partial_entry(m, addrs@, addrs@.len() as int, bucket_size, r@[i]));
                let j = choose|j: int| 0 <= j < addrs@.len() && bucket_of(#[trigger] addrs@[j], bucket_size) == r@[i].0;
                assert(addrs@.contains(addrs@[j]));
                assert(m.contains_key(addrs@[j]));
            }
        }
        r
    }
}

/// A heatmap entry `e` of the allocations `m`: its start is that of a bucket
/// holding an allocation, and its bytes are the bucket's total.
pub open spec fn heatmap_entry(m: Map<usize, AllocationInfo>, bucket_size: usize, e: (usize, usize)) -> bool {
    &&& e.1 == bucket_total(m, bucket_size, e.0 as int)
    &&& exists|a: usize| #[trigger] m.contains_key(a) && bucket_of(a, bucket_size) == e.0
}

/// An entry of the heatmap after the first `k` addresses of `s` have been counted.
spec fn partial_entry(m: Map<usize, AllocationInfo>, s: Seq<usize>, k: int, bucket_size: usize, e: (usize, usize)) -> bool {
    &&& e.1 == bucket_total(m.restrict(s.take(k).to_set()), bucket_size, e.0 as int)
    &&& exists|j: int| 0 <= j < k && bucket_of(#[trigger] s[j], bucket_size) == e.0
}

/// `after` is the enabled tracker `before` once `size` bytes were allocated
/// at `address` from `location`: the allocation is live with no tag, the
/// totals and the count grow, the peak follows, and a snapshot may be taken.
pub open spec fn allocation_recorded(before: MemoryTracker, after: MemoryTracker, address: usize,
    size: usize, location: Seq<char>) -> bool {
    let c0 = before.spec_counters();
    let c1 = after.spec_counters();
    &&& after.spec_allocations().dom() == before.spec_allocations().dom().insert(address)
    &&& forall|a: usize| a != address && #[trigger] before.spec_allocations().contains_key(a)
            ==> after.spec_allocations()[a] == before.spec_allocations()[a]
    &&& after.spec_allocations()[address].size == size
    &&& after.spec_allocations()[address].location@ == location
    &&& after.spec_allocations()[address].tag is None
    &&& c1.total_allocated == c0.total_allocated + size
    &&& c1.current_allocated == c0.current_allocated + size
    &&& c1.allocation_count == c0.allocation_count + 1
    &&& c1.deallocation_count == c0.deallocation_count
    &&& c1.peak_allocated == if c0.current_allocated + size > c0.peak_allocated {
            (c0.current_allocated + size) as nat
        } else {
            c0.peak_allocated
        }
    &&& sampled(before.spec_history(), after.spec_history(), c1)
}

/// `after` is the enabled tracker `before` once the allocation at `address`
/// was freed: it is no longer live and, if it was, its bytes leave the
/// current total and the release is counted; a snapshot may be taken.
pub open spec fn deallocation_recorded(before: MemoryTracker, after: MemoryTracker, address: usize) -> bool {
    let c0 = before.spec_counters();
    let c1 = after.spec_counters();
    &&& after.spec_allocations() == before.spec_allocations().remove(address)
    &&& c1.total_allocated == c0.total_allocated
    &&& c1.peak_allocated == c0.peak_allocated
    &&& c1.allocation_count == c0.allocation_count
    &&& if before.spec_allocations().contains_key(address) {
            &&& c1.current_allocated == c0.current_allocated - before.spec_allocations()[address].size
            &&& c1.deallocation_count == c0.deallocation_count + 1
        } else {
            &&& c1.current_allocated == c0.current_allocated
            &&& c1.deallocation_count == c0.deallocation_count
        }
    &&& sampled(before.spec_history(), after.spec_history(), c1)
}

/// Allocating at a free address and freeing it again leaves the live
/// allocations and the current total as they were, and counts one
/// allocation and one release.
pub proof fn lemma_alloc_then_free(t0: MemoryTracker, t1: MemoryTracker, t2: MemoryTracker,
    address: usize, size: usize, location: Seq<char>)
    requires
        !t0.spec_allocations().contains_key(address),
        allocation_recorded(t0, t1, address, size, location),
        deallocation_recorded(t1, t2, address),
    ensures
        t2.spec_allocations() == t0.spec_allocations(),
        t2.spec_counters().current_allocated == t0.spec_counters().current_allocated,
        t2.spec_counters().allocation_count == t0.spec_counters().allocation_count + 1,
        t2.spec_counters().deallocation_count == t0.spec_counters().deallocation_count + 1,
        t2.spec_counters().total_allocated == t0.spec_counters().total_allocated + size,
{
    assert(t1.spec_allocations().contains_key(address));
    assert(t2.spec_allocations() =~= t0.spec_allocations());
}

/// The start of the bucket of `bucket_size` bytes that holds `address`.
pub open spec fn bucket_of(address: usize, bucket_size: usize) -> int {
    (address / bucket_size) * bucket_size
}

/// The bytes of the allocations of `m` that lie in the bucket starting at `start`.
pub open spec fn bucket_total(m: Map<usize, AllocationInfo>, bucket_size: usize, start: int) -> nat {
    map_sum(
        m.restrict(Set::new(|a: usize| bucket_of(a, bucket_size) == start)),
        |i: AllocationInfo| alloc_size(i),
    )
}

/// The snapshot of the counters `c` taken at `ts`.
pub open spec fn snapshot_of(ts: u128, c: TrackerCounters) -> MemorySnapshot {
    MemorySnapshot {
        timestamp: ts,
        total_allocated: c.total_allocated as usize,
        current_allocated: c.current_allocated as usize,
        allocation_count: c.allocation_count as usize,
        largest_free_block: REPORTED_LARGEST_FREE_BLOCK,
    }
}

/// The last `n` items of `s` (all of them if there are fewer).
pub open spec fn keep_last<A>(s: Seq<A>, n: nat) -> Seq<A> {
    if s.len() > n {
        s.subrange(s.len() - n, s.len() as int)
    } else {
        s
    }
}

/// `after` is `before`, or `before` with a snapshot of `c` appended and the
/// oldest snapshots beyond a thousand dropped.
pub open spec fn sampled(before: Seq<MemorySnapshot>, after: Seq<MemorySnapshot>, c: TrackerCounters) -> bool {
    ||| after == before
    ||| exists|ts: u128| after == keep_last(before.push(snapshot_of(ts, c)), MAX_SNAPSHOTS as nat)
}

/// Adding one more address to the processed ones adds its size to its own bucket only.
proof fn lemma_bucket_total_step(m: Map<usize, AllocationInfo>, s: Seq<usize>, k: int, bucket_size: usize)
    requires
        0 <= k < s.len(),
        s.no_duplicates(),
        m.contains_key(s[k]),
        m.dom().finite(),
        s.take(k + 1).to_set() == s.take(k).to_set().insert(s[k]),
    ensures
        forall|b: int| #[trigger] bucket_total(m.restrict(s.take(k + 1).to_set()), bucket_size, b)
            == bucket_total(m.restrict(s.take(k).to_set()), bucket_size, b)
                + (if bucket_of(s[k], bucket_size) == b { m[s[k]].size as int } else { 0 }),
{
    let a = s[k];
    let mk = m.restrict(s.take(k).to_set());
    let mk1 = m.restrict(s.take(k + 1).to_set());
    let f = |i: AllocationInfo| alloc_size(i);
    assert(!s.take(k).contains(a)) by {
        if s.take(k).contains(a) {
            let j = choose|j: int| 0 <= j < k && #[trigger] s.take(k)[j] == a;
            assert(s[j] == s[k]);
        }
    }
    assert(mk1 =~= mk.insert(a, m[a]));
    assert forall|b: int| #[trigger] bucket_total(mk1, bucket_size, b)
        == bucket_total(mk, bucket_size, b)
            + (if bucket_of(a, bucket_size) == b { m[a].size as int } else { 0 }) by {
        let bs = Set::new(|x: usize| bucket_of(x, bucket_size) == b);
        let r1 = mk1.restrict(bs);
        let r0 = mk.restrict(bs);
        assert(mk.dom().finite()) by {
            assert(mk.dom().subset_of(m.dom()));
            vstd::set_lib::lemma_set_subset_finite(m.dom(), mk.dom());
        }
        assert(r0.dom().finite()) by {
            assert(r0.dom().subset_of(mk.dom()));
            vstd::set_lib::lemma_set_subset_finite(mk.dom(), r0.dom());
        }
        if bucket_of(a, bucket_size) == b {
            assert(r1 =~= r0.insert(a, m[a]));
            lemma_map_sum_insert(r0, f, a, m[a]);
            assert(!r0.contains_key(a));
            assert(r0.remove(a) =~= r0);
        } else {
            assert(r1 =~= r0);
        }
    }
}

/// The bytes of one bucket of part of a map are at most the bytes of the whole map.
proof fn lemma_bucket_total_bound(m: Map<usize, AllocationInfo>, bucket_size: usize, b: int, x: Set<usize>)
    requires
        m.dom().finite(),
    ensures
        bucket_total(m.restrict(x), bucket_size, b) <= map_sum(m, |i: AllocationInfo| alloc_size(i)),
{
    let bs = Set::new(|y: usize| bucket_of(y, bucket_size) == b);
    let sub = m.restrict(x).restrict(bs);
    assert(sub.submap_of(m));
    lemma_map_sum_submap(sub, m, |i: AllocationInfo| alloc_size(i));
}

/// A map none of whose addresses lies in the bucket at `b` has nothing in it.
proof fn lemma_bucket_total_zero(m: Map<usize, AllocationInfo>, bucket_size: usize, b: int)
    requires
        forall|x: usize| #[trigger] m.contains_key(x) ==> bucket_of(x, bucket_size) != b,
    ensures
        bucket_total(m, bucket_size, b) == 0,
{
    let bs = Set::new(|x: usize| bucket_of(x, bucket_size) == b);
    assert(m.restrict(bs) =~= Map::<usize, AllocationInfo>::empty());
    lemma_map_sum_empty::<usize, AllocationInfo>(|i: AllocationInfo| alloc_size(i));
}

/// The sum over part of a map is at most the sum over the whole map.
pub proof fn lemma_map_sum_submap<K, V>(sub: Map<K, V>, m: Map<K, V>, f: spec_fn(V) -> nat)
    requires
        m.dom().finite(),
        sub.submap_of(m),
    ensures
        sub.dom().finite(),
        map_sum(sub, f) <= map_sum(m, f),
    decreases m.dom().len(),
{
    vstd::set_lib::lemma_set_subset_finite(m.dom(), sub.dom());
    if m.dom().len() == 0 {
        m.dom().lemma_len0_is_empty();
        assert(sub.dom() =~= Set::empty());
        assert(sub.dom().len() == 0);
    } else {
        let k = m.dom().choose();
        lemma_map_sum_remove(m, f, k);
        if sub.contains_key(k) {
            lemma_map_sum_remove(sub, f, k);
            lemma_map_sum_submap(sub.remove(k), m.remove(k), f);
        } else {
            assert(sub.submap_of(m.remove(k)));
            lemma_map_sum_submap(sub, m.remove(k), f);
        }
    }
}

proof fn lemma_bucket_of(a: usize, bucket_size: usize)
    requires
        bucket_size > 0,
    ensures
        (a / bucket_size) * bucket_size <= a,
        (a / bucket_size) * bucket_size == bucket_of(a, bucket_size),
{
    vstd::arithmetic::div_mod::lemma_fundamental_div_mod(a as int, bucket_size as int);
    assert((a / bucket_size) * bucket_size <= a) by (nonlinear_arith)
        requires bucket_size > 0, a % bucket_size >= 0, a == bucket_size * (a / bucket_size) + a % bucket_size;
}

} // verus!
