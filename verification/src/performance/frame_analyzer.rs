//! The frame analyzer's record of frames: how long each recent frame took
//! (in nanoseconds), when it began, how many frames ended and how many were
//! begun again before they ended, and which stayed within the frame budget.
//! The statistics over these times (rates, variances, grades) are floating
//! point; the grades they lead to are listed here.
use std::time::Instant;
use vstd::prelude::*;
use crate::clock::{elapsed, now};
use crate::performance::duration_total_nanos;
use crate::performance::memory_tracker::keep_last;

verus! {

/// How well frames keep up.
#[derive(Debug, Clone, Copy, PartialEq, Eq, Structural)]
pub enum PerformanceGrade {
    Excellent,
    Good,
    Fair,
    Poor,
    Terrible,
}

/// How far a frame-time spike stands out.
#[derive(Debug, Clone, Copy, PartialEq, Eq, Structural)]
pub enum SpikeSeverity {
    NoSpike,
    Low,
    Medium,
    High,
    Critical,
}

/// How much performance fell against a baseline.
#[derive(Debug, Clone, Copy, PartialEq, Eq, Structural)]
pub enum RegressionSeverity {
    Minor,
    Moderate,
    Severe,
}

/// How many frames the analyzer keeps unless told otherwise.
pub const DEFAULT_MAX_HISTORY: usize = 300;

/// How many of the frame times `s` are within `budget`.
pub open spec fn count_within(s: Seq<u128>, budget: u128) -> nat
    decreases s.len(),
{
    if s.len() == 0 {
        0
    } else {
        count_within(s.drop_last(), budget) + if s.last() <= budget { 1nat } else { 0nat }
    }
}

/// The recent frames, the frame under way and the frame counts.
pub struct FrameAnalyzer {
    frame_nanos: Vec<u128>,
    frame_starts: Vec<Instant>,
    current_frame_start: Option<Instant>,
    max_history: usize,
    total_frames: u64,
    dropped_frames: u64,
    budget_nanos: u128,
    enabled: bool,
}

impl FrameAnalyzer {
    /// The times of the frames kept, oldest first, in nanoseconds.
    pub closed spec fn frames(&self) -> Seq<u128> {
        self.frame_nanos@
    }

    /// Whether a frame has begun and not ended.
    pub closed spec fn in_frame(&self) -> bool {
        self.current_frame_start is Some
    }

    /// The most frames kept.
    pub closed spec fn spec_max_history(&self) -> usize {
        self.max_history
    }

    /// The frames ended since the start or the last reset.
    pub closed spec fn spec_total_frames(&self) -> u64 {
        self.total_frames
    }

    /// The frames begun again before they ended.
    pub closed spec fn spec_dropped_frames(&self) -> u64 {
        self.dropped_frames
    }

    /// The time a frame may take, in nanoseconds.
    pub closed spec fn spec_budget(&self) -> u128 {
        self.budget_nanos
    }

    /// Whether frames are recorded.
    pub closed spec fn spec_enabled(&self) -> bool {
        self.enabled
    }

    /// Each frame kept has its start, and no more frames are kept than allowed.
    pub closed spec fn wf(&self) -> bool {
        &&& self.frame_nanos@.len() == self.frame_starts@.len()
        &&& self.frame_nanos@.len() <= self.max_history
    }

    /// An enabled analyzer with no frames, keeping 300, with a frame budget
    /// of `budget_nanos`.
    pub fn new(budget_nanos: u128) -> (r: FrameAnalyzer)
        ensures
            r.wf(),
            r.frames() == Seq::<u128>::empty(),
            !r.in_frame(),
            r.spec_max_history() == DEFAULT_MAX_HISTORY,
            r.spec_total_frames() == 0,
            r.spec_dropped_frames() == 0,
            r.spec_budget() == budget_nanos,
            r.spec_enabled(),
    {
        FrameAnalyzer {
            frame_nanos: Vec::new(),
            frame_starts: Vec::new(),
            current_frame_start: None,
            max_history: DEFAULT_MAX_HISTORY,
            total_frames: 0,
            dropped_frames: 0,
            budget_nanos,
            enabled: true,
        }
    }

    /// Turns recording on or off.
    pub fn set_enabled(&mut self, enabled: bool)
        requires
            old(self).wf(),
        ensures
            final(self).wf(),
            final(self).spec_enabled() == enabled,
            final(self).frames() == old(self).frames(),
            final(self).in_frame() == old(self).in_frame(),
            final(self).spec_total_frames() == old(self).spec_total_frames(),
            final(self).spec_dropped_frames() == old(self).spec_dropped_frames(),
            final(self).spec_budget() == old(self).spec_budget(),
            final(self).spec_max_history() == old(self).spec_max_history(),
    {
        self.enabled = enabled;
    }

    /// Sets the frame budget, in nanoseconds.
    pub fn set_budget(&mut self, budget_nanos: u128)
        requires
            old(self).wf(),
        ensures
            final(self).wf(),
            final(self).spec_budget() == budget_nanos,
            final(self).spec_enabled() == old(self).spec_enabled(),
            final(self).frames() == old(self).frames(),
            final(self).in_frame() == old(self).in_frame(),
            final(self).spec_total_frames() == old(self).spec_total_frames(),
            final(self).spec_dropped_frames() == old(self).spec_dropped_frames(),
            final(self).spec_max_history() == old(self).spec_max_history(),
    {
        self.budget_nanos = budget_nanos;
    }

    /// Drops the oldest frames beyond the most kept.
    fn trim(&mut self)
        requires
            old(self).frame_nanos@.len() == old(self).frame_starts@.len(),
        ensures
            final(self).wf(),
            final(self).frame_nanos@ == keep_last(old(self).frame_nanos@, old(self).max_history as nat),
            final(self).current_frame_start == old(self).current_frame_start,
            final(self).max_history == old(self).max_history,
            final(self).total_frames == old(self).total_frames,
            final(self).dropped_frames == old(self).dropped_frames,
            final(self).budget_nanos == old(self).budget_nanos,
            final(self).enabled == old(self).enabled,
    {
        let ghost s0 = self.frame_nanos@;
        let ghost n = self.max_history as nat;
        while self.frame_nanos.len() > self.max_history
            invariant
                self.frame_nanos@.len() == self.frame_starts@.len(),
                keep_last(self.frame_nanos@, n) == keep_last(s0, n),
                n == self.max_history,
                self.current_frame_start == old(self).current_frame_start,
                self.max_history == old(self).max_history,
                self.total_frames == old(self).total_frames,
                self.dropped_frames == old(self).dropped_frames,
                self.budget_nanos == old(self).budget_nanos,
                self.enabled == old(self).enabled,
            decreases self.frame_nanos@.len(),
        {
            let ghost v = self.frame_nanos@;
            self.frame_nanos.remove(0);
            self.frame_starts.remove(0);
            proof {
                assert(self.frame_nanos@ =~= v.drop_first());
                if self.frame_nanos@.len() > n {
                    assert(keep_last(self.frame_nanos@, n) =~= keep_last(v, n));
                } else {
                    assert(keep_last(self.frame_nanos@, n) =~= self.frame_nanos@);
                    assert(keep_last(v, n) =~= v.subrange(1, v.len() as int));
                }
            }
        }
    }

    /// Keeps at most `size` frames from now on, dropping the oldest beyond.
    pub fn set_max_history(&mut self, size: usize)
        requires
            old(self).wf(),
        ensures
            final(self).wf(),
            final(self).spec_max_history() == size,
            final(self).frames() == keep_last(old(self).frames(), size as nat),
            final(self).in_frame() == old(self).in_frame(),
            final(self).spec_total_frames() == old(self).spec_total_frames(),
            final(self).spec_dropped_frames() == old(self).spec_dropped_frames(),
            final(self).spec_budget() == old(self).spec_budget(),
            final(self).spec_enabled() == old(self).spec_enabled(),
    {
        self.max_history = size;
        self.trim();
    }

    /// Begins a frame (when enabled); a frame begun while another was under
    /// way counts as dropped.
    pub fn begin_frame(&mut self)
        requires
            old(self).wf(),
            old(self).spec_enabled() && old(self).in_frame() ==> old(self).spec_dropped_frames() < u64::MAX,
        ensures
            final(self).wf(),
            final(self).in_frame() == (old(self).in_frame() || old(self).spec_enabled()),
            final(self).spec_dropped_frames() == old(self).spec_dropped_frames()
                + if old(self).spec_enabled() && old(self).in_frame() { 1int } else { 0int },
            final(self).frames() == old(self).frames(),
            final(self).spec_total_frames() == old(self).spec_total_frames(),
            final(self).spec_budget() == old(self).spec_budget(),
            final(self).spec_max_history() == old(self).spec_max_history(),
            final(self).spec_enabled() == old(self).spec_enabled(),
    {
        if !self.enabled {
            return;
        }
        if self.current_frame_start.is_some() {
            self.dropped_frames = self.dropped_frames + 1;
        }
        self.current_frame_start = Some(now());
    }

    /// Records a frame that began at `start` and took `nanos` nanoseconds:
    /// it joins the kept frames, the oldest beyond the most kept are dropped,
    /// and one more frame has ended.
    pub fn record_frame(&mut self, start: Instant, nanos: u128)
        requires
            old(self).wf(),
            old(self).spec_total_frames() < u64::MAX,
        ensures
            final(self).wf(),
            final(self).frames() == keep_last(old(self).frames().push(nanos), old(self).spec_max_history() as nat),
            final(self).spec_total_frames() == old(self).spec_total_frames() + 1,
            final(self).in_frame() == old(self).in_frame(),
            final(self).spec_dropped_frames() == old(self).spec_dropped_frames(),
            final(self).spec_budget() == old(self).spec_budget(),
            final(self).spec_max_history() == old(self).spec_max_history(),
            final(self).spec_enabled() == old(self).spec_enabled(),
    {
        self.frame_nanos.push(nanos);
        self.frame_starts.push(start);
        self.total_frames = self.total_frames + 1;
        self.trim();
    }

    /// Ends the frame under way (when enabled): its time, as the clock
    /// reports it, is recorded as by `record_frame`. Without a frame under
    /// way nothing changes.
    pub fn end_frame(&mut self)
        requires
            old(self).wf(),
            old(self).spec_enabled() && old(self).in_frame() ==> old(self).spec_total_frames() < u64::MAX,
        ensures
            final(self).wf(),
            final(self).in_frame() == (old(self).in_frame() && !old(self).spec_enabled()),
            old(self).spec_enabled() && old(self).in_frame() ==> {
                &&& exists|nanos: u128| final(self).frames()
                    == keep_last(old(self).frames().push(nanos), old(self).spec_max_history() as nat)
                &&& final(self).spec_total_frames() == old(self).spec_total_frames() + 1
            },
            !(old(self).spec_enabled() && old(self).in_frame()) ==> {
                &&& final(self).frames() == old(self).frames()
                &&& final(self).spec_total_frames() == old(self).spec_total_frames()
            },
            final(self).spec_dropped_frames() == old(self).spec_dropped_frames(),
            final(self).spec_budget() == old(self).spec_budget(),
            final(self).spec_max_history() == old(self).spec_max_history(),
            final(self).spec_enabled() == old(self).spec_enabled(),
    {
        if !self.enabled {
            return;
        }
        match self.current_frame_start.take() {
            Some(start) => {
                let nanos = duration_total_nanos(elapsed(&start));
                assert(self.frames() == old(self).frames());
                self.record_frame(start, nanos);
                assert(self.frames() == keep_last(old(self).frames().push(nanos),
                    old(self).spec_max_history() as nat));
            },
            None => {},
        }
    }

    /// The times of the frames kept, oldest first, in nanoseconds.
    pub fn frame_times(&self) -> (r: &Vec<u128>)
        ensures
            r@ == self.frames(),
    {
        &self.frame_nanos
    }

    /// The starts of the frames kept, oldest first.
    pub fn frame_starts(&self) -> (r: &Vec<Instant>)
        requires
            self.wf(),
        ensures
            r@.len() == self.frames().len(),
    {
        &self.frame_starts
    }

    /// The frames ended since the start or the last reset.
    pub fn total_frames(&self) -> (r: u64)
        ensures
            r == self.spec_total_frames(),
    {
        self.total_frames
    }

    /// The frames begun again before they ended.
    pub fn dropped_frames(&self) -> (r: u64)
        ensures
            r == self.spec_dropped_frames(),
    {
        self.dropped_frames
    }

    /// The frame budget, in nanoseconds.
    pub fn budget_nanos(&self) -> (r: u128)
        ensures
            r == self.spec_budget(),
    {
        self.budget_nanos
    }

    /// How many of the kept frames took no longer than the budget.
    pub fn frames_within_budget(&self) -> (r: usize)
        ensures
            r == count_within(self.frames(), self.spec_budget()),
    {
        let mut count: usize = 0;
        let mut i: usize = 0;
        while i < self.frame_nanos.len()
            invariant
                i <= self.frame_nanos@.len(),
                count == count_within(self.frame_nanos@.take(i as int), self.budget_nanos),
                count <= i,
            decreases self.frame_nanos@.len() - i,
        {
            proof {
                assert(self.frame_nanos@.take(i + 1).drop_last() =~= self.frame_nanos@.take(i as int));
            }
            if self.frame_nanos[i] <= self.budget_nanos {
                count = count + 1;
            }
            i = i + 1;
        }
        proof {
            assert(self.frame_nanos@.take(i as int) =~= self.frame_nanos@);
        }
        count
    }

    /// The times of the last `frame_count` frames kept (all of them if there
    /// are fewer), oldest first.
    pub fn recent_frame_times(&self, frame_count: usize) -> (r: Vec<u128>)
        ensures
            r@ == keep_last(self.frames(), frame_count as nat),
    {
        let len = self.frame_nanos.len();
        let start = if len > frame_count { len - frame_count } else { 0 };
        let mut r: Vec<u128> = Vec::new();
        let mut i: usize = start;
        while i < len
            invariant
                len == self.frame_nanos@.len(),
                start <= i <= len,
                r@ == self.frame_nanos@.subrange(start as int, i as int),
            decreases len - i,
        {
            r.push(self.frame_nanos[i]);
            i = i + 1;
            proof {
                assert(r@ =~= self.frame_nanos@.subrange(start as int, i as int));
            }
        }
        proof {
            if len <= frame_count {
                assert(self.frame_nanos@.subrange(0, len as int) =~= self.frame_nanos@);
            }
        }
        r
    }

    /// Forgets every frame and count; no frame is under way.
    pub fn reset(&mut self)
        requires
            old(self).wf(),
        ensures
            final(self).wf(),
            final(self).frames() == Seq::<u128>::empty(),
            !final(self).in_frame(),
            final(self).spec_total_frames() == 0,
            final(self).spec_dropped_frames() == 0,
            final(self).spec_budget() == old(self).spec_budget(),
            final(self).spec_max_history() == old(self).spec_max_history(),
            final(self).spec_enabled() == old(self).spec_enabled(),
    {
        self.frame_nanos.clear();
        self.frame_starts.clear();
        self.current_frame_start = None;
        self.total_frames = 0;
        self.dropped_frames = 0;
    }
}

} // verus!
