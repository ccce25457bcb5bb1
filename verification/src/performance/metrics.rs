//! Counters and timers. Durations are kept as whole nanoseconds.
use std::time::{Duration, Instant};
use vstd::prelude::*;
use crate::clock::now;
use crate::collections::StrMap;
use crate::performance::{duration_from_nanos, duration_from_total, duration_of,
    duration_as_nanos, duration_nanos, duration_total_nanos, DURATION_MAX_NANOS};

verus! {

/// The kinds of metric.
#[derive(Debug, Clone, Copy, PartialEq, Eq, Structural)]
pub enum MetricType {
    Counter,
    Timer,
    Histogram,
    Gauge,
}

/// The direction a gauge is heading.
#[derive(Debug, Clone, Copy, PartialEq, Eq, Structural)]
pub enum TrendDirection {
    Increasing,
    Decreasing,
    Stable,
}

/// A counter: a running total with a name, a description and tags.
pub struct Counter {
    name: String,
    value: u64,
    description: String,
    tags: StrMap<String>,
    created_at: Instant,
}

impl Counter {
    /// The running total.
    pub closed spec fn spec_value(&self) -> u64 {
        self.value
    }

    /// The tags.
    pub closed spec fn spec_tags(&self) -> Map<Seq<char>, String> {
        self.tags.view()
    }

    /// The counter's name.
    pub closed spec fn spec_name(&self) -> Seq<char> {
        self.name@
    }

    /// The tag storage is consistent.
    pub closed spec fn wf(&self) -> bool {
        self.tags.wf()
    }

    /// The counter's description.
    pub closed spec fn spec_description(&self) -> Seq<char> {
        self.description@
    }

    /// When the counter was started or last reset.
    pub closed spec fn spec_created_at(&self) -> Instant {
        self.created_at
    }

    /// A counter at zero, started now.
    pub fn new(name: String, description: String) -> (r: Counter)
        ensures
            r.wf(),
            r.spec_value() == 0,
            r.spec_name() == name@,
            r.spec_description() == description@,
            r.spec_tags() == Map::<Seq<char>, String>::empty(),
    {
        Counter { name, value: 0, description, tags: StrMap::new(), created_at: now() }
    }

    /// Adds `value` to the total.
    pub fn increment(&mut self, value: u64)
        requires
            old(self).spec_value() + value <= u64::MAX,
        ensures
            final(self).spec_value() == old(self).spec_value() + value,
            final(self).spec_tags() == old(self).spec_tags(),
            final(self).spec_name() == old(self).spec_name(),
            final(self).wf() == old(self).wf(),
            final(self).spec_description() == old(self).spec_description(),
            final(self).spec_created_at() == old(self).spec_created_at(),
    {
        self.value = self.value + value;
    }

    /// Sets the total back to zero and restarts the counter's clock.
    pub fn reset(&mut self)
        ensures
            final(self).spec_value() == 0,
            final(self).spec_tags() == old(self).spec_tags(),
            final(self).spec_name() == old(self).spec_name(),
            final(self).spec_description() == old(self).spec_description(),
            final(self).wf() == old(self).wf(),
    {
        self.value = 0;
        self.created_at = now();
    }

    /// Sets the tag `key` to `value`.
    pub fn add_tag(&mut self, key: String, value: String)
        requires
            old(self).wf(),
        ensures
            final(self).wf(),
            final(self).spec_tags() == old(self).spec_tags().insert(key@, value),
            final(self).spec_value() == old(self).spec_value(),
            final(self).spec_name() == old(self).spec_name(),
            final(self).spec_description() == old(self).spec_description(),
            final(self).spec_created_at() == old(self).spec_created_at(),
    {
        self.tags.insert(key, value);
    }

    /// The running total.
    pub fn value(&self) -> (r: u64)
        ensures
            r == self.spec_value(),
    {
        self.value
    }

    /// The counter's name.
    pub fn name(&self) -> (r: &str)
        ensures
            r@ == self.spec_name(),
    {
        self.name.as_str()
    }

    /// The counter's description.
    pub fn description(&self) -> (r: &str)
        ensures
            r@ == self.spec_description(),
    {
        self.description.as_str()
    }

    /// When the counter was started or last reset.
    pub fn created_at(&self) -> (r: &Instant)
        ensures
            *r == self.spec_created_at(),
    {
        &self.created_at
    }
}

/// A timer: how many durations it recorded, their total, the shortest and
/// the longest, and the timings under way.
pub struct Timer {
    name: String,
    total_nanos: u128,
    count: u64,
    min_nanos: u128,
    max_nanos: u128,
    description: String,
    tags: StrMap<String>,
    active_timings: StrMap<Instant>,
}

/// The statistics of a timer: the count, the total, the minimum and the maximum, in nanoseconds.
pub struct TimerStats {
    pub count: nat,
    pub total: nat,
    pub min: nat,
    pub max: nat,
}

/// The statistics after recording one more duration of `n` nanoseconds.
pub open spec fn stats_after(s: TimerStats, n: nat) -> TimerStats {
    TimerStats {
        count: s.count + 1,
        total: s.total + n,
        min: if n < s.min { n } else { s.min },
        max: if n > s.max { n } else { s.max },
    }
}

/// The statistics of a timer that recorded nothing: no count and no total,
/// the minimum at the longest duration there is and the maximum at zero.
pub open spec fn empty_stats() -> TimerStats {
    TimerStats { count: 0, total: 0, min: DURATION_MAX_NANOS as nat, max: 0 }
}

/// The statistics after recording each of `ns`, starting from none.
pub open spec fn stats_of(ns: Seq<nat>) -> TimerStats
    decreases ns.len(),
{
    if ns.len() == 0 {
        empty_stats()
    } else {
        stats_after(stats_of(ns.drop_last()), ns.last())
    }
}

impl Timer {
    /// The timer's statistics.
    pub closed spec fn stats(&self) -> TimerStats {
        TimerStats {
            count: self.count as nat,
            total: self.total_nanos as nat,
            min: self.min_nanos as nat,
            max: self.max_nanos as nat,
        }
    }

    /// The tags.
    pub closed spec fn spec_tags(&self) -> Map<Seq<char>, String> {
        self.tags.view()
    }

    /// The timings under way, by session.
    pub closed spec fn sessions(&self) -> Map<Seq<char>, Instant> {
        self.active_timings.view()
    }

    /// The storage is consistent and the total fits in a duration.
    pub closed spec fn wf(&self) -> bool {
        &&& self.tags.wf()
        &&& self.active_timings.wf()
        &&& self.total_nanos <= DURATION_MAX_NANOS
        &&& self.min_nanos <= DURATION_MAX_NANOS
        &&& self.max_nanos <= DURATION_MAX_NANOS
        &&& self.count == 0 ==> self.total_nanos == 0
        &&& self.count > 0 ==> self.count * self.min_nanos <= self.total_nanos <= self.count * self.max_nanos
    }

    /// A timer that recorded nothing.
    pub fn new(name: String, description: String) -> (r: Timer)
        ensures
            r.wf(),
            r.stats() == empty_stats(),
            r.spec_tags() == Map::<Seq<char>, String>::empty(),
            r.sessions() == Map::<Seq<char>, Instant>::empty(),
    {
        Timer {
            name,
            total_nanos: 0,
            count: 0,
            min_nanos: DURATION_MAX_NANOS,
            max_nanos: 0,
            description,
            tags: StrMap::new(),
            active_timings: StrMap::new(),
        }
    }

    /// Records one duration. The total must stay within the longest duration
    /// there is, and the count within `u64`.
    pub fn record_duration(&mut self, duration: Duration)
        requires
            old(self).wf(),
            old(self).stats().count < u64::MAX,
            old(self).stats().total + duration_nanos(duration) <= DURATION_MAX_NANOS,
        ensures
            final(self).wf(),
            final(self).stats() == stats_after(old(self).stats(), duration_nanos(duration) as nat),
            final(self).spec_tags() == old(self).spec_tags(),
            final(self).sessions() == old(self).sessions(),
    {
        let n = duration_total_nanos(duration);
        let ghost (c0, t0, lo0, hi0) = (self.count as int, self.total_nanos as int, self.min_nanos as int,
            self.max_nanos as int);
        self.total_nanos = self.total_nanos + n;
        self.count = self.count + 1;
        if n < self.min_nanos {
            self.min_nanos = n;
        }
        if n > self.max_nanos {
            self.max_nanos = n;
        }
        proof {
            lemma_bounds_step(c0, t0, lo0, hi0, n as int, self.min_nanos as int, self.max_nanos as int);
        }
    }

    /// Once something was recorded, the mean of the recorded durations lies
    /// between the shortest and the longest.
    pub proof fn lemma_average_between(&self)
        requires
            self.wf(),
            self.stats().count > 0,
        ensures
            self.stats().min <= self.stats().total / self.stats().count <= self.stats().max,
    {
        lemma_mean_between(self.count as int, self.total_nanos as int, self.min_nanos as int, self.max_nanos as int);
    }

    /// The mean of the recorded durations: the total in nanoseconds divided
    /// by the count, rounded down; zero when nothing was recorded. It lies
    /// between the shortest and the longest.
    pub fn average_duration(&self) -> (r: Duration)
        requires
            self.wf(),
        ensures
            self.stats().count == 0 ==> r == duration_of(0, 0),
            self.stats().count > 0 ==> r == duration_from_total((self.stats().total / self.stats().count) as u128),
            self.stats().count > 0 ==> self.stats().min <= self.stats().total / self.stats().count <= self.stats().max,
    {
        if self.count > 0 {
            proof {
                lemma_mean_between(self.count as int, self.total_nanos as int, self.min_nanos as int,
                    self.max_nanos as int);
            }
            duration_from_nanos(self.total_nanos / (self.count as u128))
        } else {
            crate::performance::duration_new(0, 0)
        }
    }

    /// The total of the recorded durations.
    pub fn total_duration(&self) -> (r: Duration)
        requires
            self.wf(),
        ensures
            r == duration_from_total(self.stats().total as u128),
    {
        duration_from_nanos(self.total_nanos)
    }

    /// The shortest recorded duration (the longest duration there is when none was).
    pub fn min_duration(&self) -> (r: Duration)
        requires
            self.wf(),
        ensures
            r == duration_from_total(self.stats().min as u128),
    {
        duration_from_nanos(self.min_nanos)
    }

    /// The longest recorded duration (zero when none was).
    pub fn max_duration(&self) -> (r: Duration)
        requires
            self.wf(),
        ensures
            r == duration_from_total(self.stats().max as u128),
    {
        duration_from_nanos(self.max_nanos)
    }

    /// The number of recorded durations.
    pub fn count(&self) -> (r: u64)
        ensures
            r == self.stats().count,
    {
        self.count
    }

    /// Forgets every recording and every timing under way.
    pub fn reset(&mut self)
        requires
            old(self).wf(),
        ensures
            final(self).wf(),
            final(self).stats() == empty_stats(),
            final(self).sessions() == Map::<Seq<char>, Instant>::empty(),
            final(self).spec_tags() == old(self).spec_tags(),
    {
        self.total_nanos = 0;
        self.count = 0;
        self.min_nanos = DURATION_MAX_NANOS;
        self.max_nanos = 0;
        self.active_timings.clear();
    }

    /// Sets the tag `key` to `value`.
    pub fn add_tag(&mut self, key: String, value: String)
        requires
            old(self).wf(),
        ensures
            final(self).wf(),
            final(self).spec_tags() == old(self).spec_tags().insert(key@, value),
            final(self).stats() == old(self).stats(),
            final(self).sessions() == old(self).sessions(),
    {
        self.tags.insert(key, value);
    }

    /// Notes that the timing `session_id` started at `start`.
    pub fn start_session(&mut self, session_id: String, start: Instant)
        requires
            old(self).wf(),
        ensures
            final(self).wf(),
            final(self).sessions() == old(self).sessions().insert(session_id@, start),
            final(self).stats() == old(self).stats(),
            final(self).spec_tags() == old(self).spec_tags(),
    {
        self.active_timings.insert(session_id, start);
    }

    /// The number of timings under way.
    pub fn active_sessions(&self) -> (r: usize)
        requires
            self.wf(),
        ensures
            r == self.sessions().len(),
    {
        self.active_timings.len()
    }

    /// Whether one more duration of `nanos` nanoseconds can be recorded: the
    /// count stays within `u64` and the total within the longest duration.
    pub fn can_record(&self, nanos: u128) -> (r: bool)
        requires
            self.wf(),
        ensures
            r == (self.stats().count < u64::MAX && self.stats().total + nanos <= DURATION_MAX_NANOS),
    {
        self.count < u64::MAX && nanos <= DURATION_MAX_NANOS - self.total_nanos
    }

    /// Records `duration` where the count and the total allow it (see
    /// `record_duration`), and says whether it did; otherwise nothing changes.
    pub fn try_record_duration(&mut self, duration: Duration) -> (r: bool)
        requires
            old(self).wf(),
        ensures
            final(self).wf(),
            r == (old(self).stats().count < u64::MAX
                && old(self).stats().total + duration_nanos(duration) <= DURATION_MAX_NANOS),
            r ==> final(self).stats() == stats_after(old(self).stats(), duration_nanos(duration) as nat),
            !r ==> final(self).stats() == old(self).stats(),
            final(self).spec_tags() == old(self).spec_tags(),
            final(self).sessions() == old(self).sessions(),
    {
        let n = duration_as_nanos(duration);
        if self.can_record(n) {
            self.record_duration(duration);
            true
        } else {
            false
        }
    }

    /// Ends the timing `session_id` where the count and the total allow its
    /// `duration` to be recorded (see `finish_session`), and says whether it
    /// did; otherwise nothing changes.
    pub fn try_finish_session(&mut self, session_id: &str, duration: Duration) -> (r: bool)
        requires
            old(self).wf(),
        ensures
            final(self).wf(),
            r == (old(self).stats().count < u64::MAX
                && old(self).stats().total + duration_nanos(duration) <= DURATION_MAX_NANOS),
            r ==> final(self).stats() == stats_after(old(self).stats(), duration_nanos(duration) as nat)
                && final(self).sessions() == old(self).sessions().remove(session_id@),
            !r ==> final(self).stats() == old(self).stats() && final(self).sessions() == old(self).sessions(),
            final(self).spec_tags() == old(self).spec_tags(),
    {
        let n = duration_as_nanos(duration);
        if self.can_record(n) {
            self.finish_session(session_id, duration);
            true
        } else {
            false
        }
    }

    /// Ends the timing `session_id`, which lasted `duration`: the duration is
    /// recorded and the timing is no longer under way.
    pub fn finish_session(&mut self, session_id: &str, duration: Duration)
        requires
            old(self).wf(),
            old(self).stats().count < u64::MAX,
            old(self).stats().total + duration_nanos(duration) <= DURATION_MAX_NANOS,
        ensures
            final(self).wf(),
            final(self).stats() == stats_after(old(self).stats(), duration_nanos(duration) as nat),
            final(self).sessions() == old(self).sessions().remove(session_id@),
            final(self).spec_tags() == old(self).spec_tags(),
    {
        self.record_duration(duration);
        self.active_timings.remove(session_id);
    }
}

/// One more value `n` keeps the total between the count times the least
/// value and the count times the greatest.
proof fn lemma_bounds_step(c: int, t: int, lo: int, hi: int, n: int, lo1: int, hi1: int)
    requires
        c >= 0,
        n >= 0,
        lo >= 0,
        c > 0 ==> c * lo <= t <= c * hi,
        c == 0 ==> t == 0,
        lo1 == if n < lo { n } else { lo },
        hi1 == if n > hi { n } else { hi },
        0 <= hi,
    ensures
        (c + 1) * lo1 <= t + n <= (c + 1) * hi1,
{
    assert(c * lo1 <= c * lo) by (nonlinear_arith) requires c >= 0, lo1 <= lo;
    assert(c * hi <= c * hi1) by (nonlinear_arith) requires c >= 0, hi <= hi1;
    if c == 0 {
        assert(c * lo1 == 0) by (nonlinear_arith) requires c == 0;
        assert(c * hi1 == 0) by (nonlinear_arith) requires c == 0;
    }
    assert((c + 1) * lo1 == c * lo1 + lo1) by (nonlinear_arith);
    assert((c + 1) * hi1 == c * hi1 + hi1) by (nonlinear_arith);
}

/// A total between the count times the least and the count times the
/// greatest gives a mean (rounded down) between the two.
proof fn lemma_mean_between(c: int, t: int, lo: int, hi: int)
    requires
        c > 0,
        t >= 0,
        lo >= 0,
        c * lo <= t <= c * hi,
    ensures
        lo <= t / c <= hi,
{
    assert(lo <= t / c) by (nonlinear_arith) requires c > 0, c * lo <= t, t >= 0, lo >= 0;
    assert(t / c <= hi) by (nonlinear_arith) requires c > 0, t <= c * hi, t >= 0;
}

/// The counts of a metrics collector.
#[derive(Debug, Clone, Copy)]
pub struct MetricsSummary {
    pub total_metrics: usize,
    pub counters: usize,
    pub timers: usize,
    pub histograms: usize,
    pub gauges: usize,
    pub collection_period: Duration,
    pub last_collection: u128,
}

/// Recording durations one by one gives the statistics of all of them: the
/// count is their number and the total their sum, and every recorded
/// duration lies between the minimum and the maximum.
pub proof fn lemma_stats_bounds(ns: Seq<nat>)
    requires
        forall|i: int| 0 <= i < ns.len() ==> #[trigger] ns[i] <= DURATION_MAX_NANOS,
    ensures
        stats_of(ns).count == ns.len(),
        forall|i: int| 0 <= i < ns.len() ==> stats_of(ns).min <= #[trigger] ns[i] <= stats_of(ns).max,
        stats_of(ns).min <= DURATION_MAX_NANOS,
    decreases ns.len(),
{
    if ns.len() > 0 {
        lemma_stats_bounds(ns.drop_last());
        assert forall|i: int| 0 <= i < ns.len() implies stats_of(ns).min <= #[trigger] ns[i] <= stats_of(ns).max by {
            if i < ns.len() - 1 {
                assert(ns[i] == ns.drop_last()[i]);
            }
        }
    }
}

} // verus!
