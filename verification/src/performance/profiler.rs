//! The profiler: a stack of open sections, per-section statistics with the
//! parent each section was first closed under, and the last thousand frames.
//! Durations are kept as whole nanoseconds.
use std::time::{Duration, Instant};
use vstd::prelude::*;
use crate::clock::{elapsed, now};
use crate::collections::{owned, StrMap};
use crate::performance::{duration_from_nanos, duration_from_total, duration_as_nanos, duration_nanos,
    duration_total_nanos, DURATION_MAX_NANOS};

verus! {

/// The number of frames the profiler keeps.
pub const MAX_FRAMES: usize = 1000;

/// The statistics of one section over all frames.
pub struct ProfileSection {
    pub name: String,
    pub total_nanos: u128,
    pub call_count: u64,
    pub max_nanos: u128,
    pub min_nanos: u128,
    pub average_time: Duration,
    pub last_nanos: u128,
    pub children: Vec<String>,
    pub parent: Option<String>,
}

/// One section within one frame.
pub struct SectionData {
    pub name: String,
    pub start_time: Instant,
    pub duration_nanos: u128,
    pub call_count: u32,
    pub depth: u32,
}

/// One frame: its number, start, sections and length.
pub struct FrameProfileData {
    pub frame_number: u64,
    pub frame_start: Instant,
    pub sections: StrMap<SectionData>,
    pub total_frame_nanos: u128,
}

/// The name held by an optional string.
pub open spec fn opt_name(s: Option<String>) -> Option<Seq<char>> {
    match s {
        Some(x) => Some(x@),
        None => None,
    }
}

/// The names of a vector of strings.
pub open spec fn names(v: Seq<String>) -> Seq<Seq<char>> {
    v.map_values(|s: String| s@)
}

/// `after` is the statistics of section `name` once a call of `n`
/// nanoseconds ended under `parent`: a section closed for the first time
/// starts from nothing with that parent. (Children aside.)
pub open spec fn section_closed_fields(before: Option<ProfileSection>, after: ProfileSection,
    name: Seq<char>, parent: Option<Seq<char>>, n: nat) -> bool {
    let (total, count, max, min, children, par) = match before {
        Some(s) => (s.total_nanos as nat, s.call_count as nat, s.max_nanos as nat,
            s.min_nanos as nat, names(s.children@), opt_name(s.parent)),
        None => (0nat, 0nat, 0nat, DURATION_MAX_NANOS as nat, Seq::<Seq<char>>::empty(), parent),
    };
    &&& after.name@ == name
    &&& after.total_nanos == total + n
    &&& after.call_count == count + 1
    &&& after.max_nanos == if n > max { n } else { max }
    &&& after.min_nanos == if n < min { n } else { min }
    &&& after.last_nanos == n
    &&& after.average_time == duration_from_total(((total + n) / (count + 1)) as u128)
    &&& opt_name(after.parent) == par
}

/// `section_closed_fields`, and the children are unchanged.
pub open spec fn section_closed(before: Option<ProfileSection>, after: ProfileSection,
    name: Seq<char>, parent: Option<Seq<char>>, n: nat) -> bool {
    &&& section_closed_fields(before, after, name, parent, n)
    &&& names(after.children@) == closed_children(before)
}

/// The profiler.
pub struct Profiler {
    sections: StrMap<ProfileSection>,
    call_stack: Vec<String>,
    frame_data: Vec<FrameProfileData>,
    current_frame: FrameProfileData,
    enabled: bool,
}

impl Profiler {
    /// The statistics by section name.
    pub closed spec fn section_map(&self) -> Map<Seq<char>, ProfileSection> {
        self.sections.view()
    }

    /// The section names in storage order.
    pub closed spec fn section_names(&self) -> Seq<Seq<char>> {
        self.sections.key_seq()
    }

    /// The names of the open sections, outermost first.
    pub closed spec fn stack(&self) -> Seq<Seq<char>> {
        names(self.call_stack@)
    }

    /// The frames kept, oldest first.
    pub closed spec fn frames(&self) -> Seq<FrameProfileData> {
        self.frame_data@
    }

    /// The frame being recorded.
    pub closed spec fn current(&self) -> FrameProfileData {
        self.current_frame
    }

    /// Whether the profiler records.
    pub closed spec fn is_enabled(&self) -> bool {
        self.enabled
    }

    /// The storage is consistent, at most a thousand frames are kept, and
    /// every total fits in a duration.
    pub closed spec fn wf(&self) -> bool {
        &&& self.sections.wf()
        &&& self.current_frame.sections.wf()
        &&& self.frame_data@.len() <= MAX_FRAMES
        &&& forall|k: Seq<char>| #[trigger] self.sections.view().contains_key(k)
            ==> self.sections.view()[k].name@ == k
                && self.sections.view()[k].total_nanos <= DURATION_MAX_NANOS
                && self.sections.view()[k].min_nanos <= DURATION_MAX_NANOS
                && self.sections.view()[k].max_nanos <= DURATION_MAX_NANOS
        &&& forall|i: int| 0 <= i < self.frame_data@.len()
            ==> (#[trigger] self.frame_data@[i]).total_frame_nanos <= DURATION_MAX_NANOS
                && self.frame_data@[i].sections.wf()
    }

    /// An enabled profiler with nothing recorded.
    pub fn new() -> (r: Profiler)
        ensures
            r.wf(),
            r.is_enabled(),
            r.section_map() == Map::<Seq<char>, ProfileSection>::empty(),
            r.stack() == Seq::<Seq<char>>::empty(),
            r.frames() == Seq::<FrameProfileData>::empty(),
            r.current().frame_number == 0,
    {
        let r = Profiler {
            sections: StrMap::new(),
            call_stack: Vec::new(),
            frame_data: Vec::new(),
            current_frame: FrameProfileData {
                frame_number: 0,
                frame_start: now(),
                sections: StrMap::new(),
                total_frame_nanos: 0,
            },
            enabled: true,
        };
        proof {
            assert(names(r.call_stack@) =~= Seq::<Seq<char>>::empty());
        }
        r
    }

    /// Turns recording on or off.
    pub fn set_enabled(&mut self, enabled: bool)
        requires
            old(self).wf(),
        ensures
            final(self).wf(),
            final(self).is_enabled() == enabled,
            final(self).section_map() == old(self).section_map(),
            final(self).stack() == old(self).stack(),
            final(self).frames() == old(self).frames(),
    {
        self.enabled = enabled;
    }

    /// Starts a new frame, numbered one past the frames kept (when enabled).
    pub fn begin_frame(&mut self)
        requires
            old(self).wf(),
        ensures
            final(self).wf(),
            final(self).is_enabled() == old(self).is_enabled(),
            final(self).section_map() == old(self).section_map(),
            final(self).stack() == old(self).stack(),
            final(self).frames() == old(self).frames(),
            old(self).is_enabled() ==> final(self).current().frame_number == old(self).frames().len() + 1
                && final(self).current().sections.view() == Map::<Seq<char>, SectionData>::empty()
                && final(self).current().total_frame_nanos == 0,
            !old(self).is_enabled() ==> final(self).current() == old(self).current(),
    {
        if !self.enabled {
            return;
        }
        self.current_frame = FrameProfileData {
            frame_number: self.frame_data.len() as u64 + 1,
            frame_start: now(),
            sections: StrMap::new(),
            total_frame_nanos: 0,
        };
    }

    /// Ends the frame: it is kept with the time passed since it began, and
    /// the oldest frame is dropped beyond a thousand (when enabled).
    pub fn end_frame(&mut self)
        requires
            old(self).wf(),
        ensures
            final(self).wf(),
            final(self).is_enabled() == old(self).is_enabled(),
            final(self).section_map() == old(self).section_map(),
            final(self).stack() == old(self).stack(),
            !old(self).is_enabled() ==> final(self).frames() == old(self).frames(),
            old(self).is_enabled() ==> {
                let n = old(self).frames().len();
                &&& final(self).frames().len() == if n + 1 > MAX_FRAMES { n } else { n + 1 }
                &&& final(self).frames().last().frame_number == old(self).current().frame_number
                &&& n + 1 <= MAX_FRAMES ==> final(self).frames().drop_last() == old(self).frames()
                &&& n + 1 > MAX_FRAMES ==> final(self).frames().drop_last() == old(self).frames().subrange(1, n as int)
            },
    {
        if !self.enabled {
            return;
        }
        let total = duration_total_nanos(elapsed(&self.current_frame.frame_start));
        let finished = FrameProfileData {
            frame_number: self.current_frame.frame_number,
            frame_start: self.current_frame.frame_start,
            sections: StrMap::new(),
            total_frame_nanos: total,
        };
        let mut done = finished;
        std::mem::swap(&mut done.sections, &mut self.current_frame.sections);
        self.current_frame.total_frame_nanos = total;
        let ghost before = self.frame_data@;
        self.frame_data.push(done);
        if self.frame_data.len() > MAX_FRAMES {
            self.frame_data.remove(0);
            proof {
                assert(self.frame_data@.drop_last() =~= before.subrange(1, before.len() as int));
            }
        } else {
            proof {
                assert(self.frame_data@.drop_last() =~= before);
            }
        }
    }

    /// Opens the section `name` in the current frame, one level deeper than
    /// the sections open.
    pub fn push_section(&mut self, name: &str)
        requires
            old(self).wf(),
            old(self).stack().len() < u32::MAX,
        ensures
            final(self).wf(),
            final(self).stack() == old(self).stack().push(name@),
            final(self).section_map() == old(self).section_map(),
            final(self).frames() == old(self).frames(),
            final(self).is_enabled() == old(self).is_enabled(),
            final(self).current().sections.view().contains_key(name@),
            final(self).current().sections.view()[name@].depth == old(self).stack().len(),
            final(self).current().sections.view()[name@].call_count == 1,
            final(self).current().sections.view()[name@].duration_nanos == 0,
    {
        self.call_stack.push(owned(name));
        let depth = self.call_stack.len() as u32 - 1;
        let data = SectionData {
            name: owned(name),
            start_time: now(),
            duration_nanos: 0,
            call_count: 1,
            depth,
        };
        self.current_frame.sections.insert(owned(name), data);
        proof {
            assert(names(self.call_stack@) =~= names(old(self).call_stack@).push(name@));
        }
    }

    /// Whether the section `name` can take one more call of `nanos`
    /// nanoseconds: a section seen before keeps its total within the longest
    /// duration and its call count within `u64`.
    pub open spec fn pop_allowed(&self, name: Seq<char>, nanos: int) -> bool {
        self.section_map().contains_key(name) ==> {
            let s = self.section_map()[name];
            &&& s.total_nanos + nanos <= DURATION_MAX_NANOS
            &&& s.call_count < u64::MAX
        }
    }

    /// Closes the section `name` after a call of `duration` where its
    /// statistics can take the call (see `pop_section`), and says whether it
    /// did; otherwise nothing changes.
    pub fn try_pop_section(&mut self, name: &str, duration: Duration) -> (r: bool)
        requires
            old(self).wf(),
        ensures
            r == old(self).pop_allowed(name@, duration_nanos(duration) as int),
            !r ==> *final(self) == *old(self),
            final(self).wf(),
            final(self).is_enabled() == old(self).is_enabled(),
            final(self).frames() == old(self).frames(),
            r ==> final(self).stack() == stack_without(old(self).stack(), name@),
            r ==> final(self).current().sections.view().dom() == old(self).current().sections.view().dom(),
            r && old(self).current().sections.view().contains_key(name@) ==>
                final(self).current().sections.view()[name@].duration_nanos == duration_nanos(duration),
            r ==> sections_after_pop(old(self).section_map(), final(self).section_map(), name@,
                stack_top(final(self).stack()), duration_nanos(duration) as nat),
    {
        let n = duration_as_nanos(duration);
        let allowed = match self.sections.get(name) {
            Some(s) => s.total_nanos <= DURATION_MAX_NANOS - n && s.call_count < u64::MAX,
            None => true,
        };
        if allowed {
            self.pop_section(name, duration);
        }
        allowed
    }

    /// Closes the section `name` after a call of `duration`: its first place
    /// on the stack is taken off, its time in the current frame set, and its
    /// statistics updated; the section then open on top is its parent, which
    /// lists it as a child once.
    pub fn pop_section(&mut self, name: &str, duration: Duration)
        requires
            old(self).wf(),
            old(self).section_map().contains_key(name@) ==> {
                let s = old(self).section_map()[name@];
                &&& s.total_nanos + duration_nanos(duration) <= DURATION_MAX_NANOS
                &&& s.call_count < u64::MAX
            },
        ensures
            final(self).wf(),
            final(self).is_enabled() == old(self).is_enabled(),
            final(self).frames() == old(self).frames(),
            final(self).stack() == stack_without(old(self).stack(), name@),
            final(self).current().sections.view().dom() == old(self).current().sections.view().dom(),
            old(self).current().sections.view().contains_key(name@) ==>
                final(self).current().sections.view()[name@].duration_nanos == duration_nanos(duration),
            sections_after_pop(old(self).section_map(), final(self).section_map(), name@,
                stack_top(final(self).stack()), duration_nanos(duration) as nat),
    {
        let n = duration_total_nanos(duration);
        let mut pos: usize = 0;
        let key = owned(name);
        while pos < self.call_stack.len() && self.call_stack[pos] != key
            invariant
                pos <= self.call_stack@.len(),
                key@ == name@,
                forall|j: int| 0 <= j < pos ==> self.call_stack@[j]@ != name@,
            decreases self.call_stack@.len() - pos,
        {
            pos = pos + 1;
        }
        let ghost st0 = self.call_stack@;
        if pos < self.call_stack.len() {
            self.call_stack.remove(pos);
            proof {
                lemma_stack_without(names(st0), name@, pos as int);
                assert(names(self.call_stack@) =~= stack_without(names(st0), name@));
            }
        } else {
            proof {
                lemma_stack_without_absent(names(st0), name@);
                assert(names(self.call_stack@) =~= stack_without(names(st0), name@));
            }
        }
        if let Some(mut data) = self.current_frame.sections.remove(name) {
            data.duration_nanos = n;
            self.current_frame.sections.insert(owned(name), data);
            proof {
                assert(self.current_frame.sections.view().dom() =~= old(self).current_frame.sections.view().dom());
            }
        }
        let parent_name: Option<String> = match self.call_stack.last() {
            Some(p) => Some(p.clone()),
            None => None,
        };
        proof {
            assert(opt_name(parent_name) == stack_top(names(self.call_stack@)));
        }
        let ghost m0 = self.sections.view();
        let section = match self.sections.remove(name) {
            Some(s) => {
                let total = s.total_nanos + n;
                let count = s.call_count + 1;
                let average = duration_from_nanos(total / (count as u128));
                assert(average == duration_from_total(((s.total_nanos as nat + n as nat)
                    / (s.call_count as nat + 1)) as u128));
                ProfileSection {
                    name: s.name,
                    total_nanos: total,
                    call_count: count,
                    max_nanos: if n > s.max_nanos { n } else { s.max_nanos },
                    min_nanos: if n < s.min_nanos { n } else { s.min_nanos },
                    average_time: average,
                    last_nanos: n,
                    children: s.children,
                    parent: s.parent,
                }
            },
            None => {
                let average = duration_from_nanos(n);
                assert(((0nat + n as nat) / (0nat + 1)) as u128 == n) by (nonlinear_arith);
                let parent_copy: Option<String> = match &parent_name {
                    Some(p) => Some(p.clone()),
                    None => None,
                };
                ProfileSection {
                    name: owned(name),
                    total_nanos: n,
                    call_count: 1,
                    max_nanos: n,
                    min_nanos: n,
                    average_time: average,
                    last_nanos: n,
                    children: Vec::new(),
                    parent: parent_copy,
                }
            },
        };
        proof {
            assert(names(section.children@) =~= if m0.contains_key(name@) {
                names(m0[name@].children@) } else { Seq::<Seq<char>>::empty() });
        }
        self.sections.insert(owned(name), section);
        let ghost m1 = self.sections.view();
        proof {
            assert(m1.dom() =~= m0.dom().insert(name@));
        }
        proof {
            assert(section_closed(if m0.contains_key(name@) { Some(m0[name@]) } else { None },
                m1[name@], name@, opt_name(parent_name), n as nat));
        }
        match parent_name {
            Some(p) => {
                if let Some(mut ps) = self.sections.remove(p.as_str()) {
                    let ghost c0 = names(ps.children@);
                    let mut listed = false;
                    let mut i: usize = 0;
                    while i < ps.children.len()
                        invariant
                            i <= ps.children@.len(),
                            key@ == name@,
                            listed == (exists|j: int| 0 <= j < i && ps.children@[j]@ == name@),
                        decreases ps.children@.len() - i,
                    {
                        if ps.children[i] == key {
                            listed = true;
                        }
                        i = i + 1;
                    }
                    proof {
                        if listed {
                            let j = choose|j: int| 0 <= j < ps.children@.len() && ps.children@[j]@ == name@;
                            assert(c0[j] == name@);
                        } else {
                            if c0.contains(name@) {
                                let j = choose|j: int| 0 <= j < c0.len() && c0[j] == name@;
                                assert(ps.children@[j]@ == name@);
                            }
                        }
                    }
                    if !listed {
                        ps.children.push(owned(name));
                        proof {
                            assert(names(ps.children@) =~= c0.push(name@));
                        }
                    }
                    proof {
                        assert(names(ps.children@) == with_child(c0, name@));
                    }
                    let ghost pv = p@;
                    let ghost psv = ps;
                    self.sections.insert(p, ps);
                    proof {
                        assert(self.sections.view() =~= m1.insert(pv, psv));
                        if pv == name@ {
                            assert(section_closed_fields(if m0.contains_key(name@) { Some(m0[name@]) } else { None },
                                self.sections.view()[name@], name@, opt_name(parent_name), n as nat));
                        } else {
                            assert(self.sections.view()[name@] == m1[name@]);
                        }
                    }
                } else {
                    proof {
                        assert(self.sections.view() =~= m1);
                    }
                }
            },
            None => {},
        }
        proof {
            assert(old(self).section_map() == m0);
            assert(stack_top(names(self.call_stack@)) == opt_name(parent_name));
        }
    }
}

impl Profiler {
    /// The sections taking the most time, most first: `limit` of them, or
    /// all if there are fewer. No section left out took longer than one
    /// listed.
    pub fn get_hotspots(&self, limit: usize) -> (r: Vec<PerformanceHotspot>)
        requires
            self.wf(),
        ensures
            r@.len() == if limit < self.section_map().len() { limit as nat } else { self.section_map().len() },
            hotspot_names(r@).no_duplicates(),
            forall|i: int| 0 <= i < r@.len() ==> #[trigger] hotspot_of(self.section_map(), r@[i]),
            forall|i: int, j: int| 0 <= i < j < r@.len() ==>
                self.section_map()[r@[i].name@].total_nanos >= self.section_map()[r@[j].name@].total_nanos,
            forall|n: Seq<char>, i: int| #[trigger] self.section_map().contains_key(n)
                && !hotspot_names(r@).contains(n) && 0 <= i < r@.len()
                ==> self.section_map()[n].total_nanos <= #[trigger] self.section_map()[r@[i].name@].total_nanos,
    {
        let ghost m = self.section_map();
        let ghost ks = self.sections.key_seq();
        proof {
            self.sections.lemma_keys();
        }
        let count = self.sections.len();
        let k = if limit < count { limit } else { count };
        let mut picked: Vec<bool> = Vec::new();
        let mut t: usize = 0;
        while t < count
            invariant
                t <= count,
                picked@.len() == t,
                forall|j: int| 0 <= j < t ==> !picked@[j],
            decreases count - t,
        {
            picked.push(false);
            t = t + 1;
        }
        let mut order: Vec<usize> = Vec::new();
        while order.len() < k
            invariant
                self.wf(),
                ks == self.sections.key_seq(),
                m == self.sections.view(),
                count == ks.len(),
                k <= count,
                order@.len() <= k,
                picked@.len() == count,
                forall|a: int| 0 <= a < order@.len() ==> #[trigger] order@[a] < count,
                forall|a: int, b: int| 0 <= a < b < order@.len() ==> order@[a] != order@[b],
                forall|j: int| 0 <= j < count ==> (#[trigger] picked@[j] <==> order@.contains(j as usize)),
                forall|a: int, b: int| 0 <= a < b < order@.len() ==>
                    m[ks[order@[a] as int]].total_nanos >= m[ks[order@[b] as int]].total_nanos,
                forall|u: int, a: int| 0 <= u < count && !#[trigger] picked@[u] && 0 <= a < order@.len() ==>
                    m[ks[u]].total_nanos <= #[trigger] m[ks[order@[a] as int]].total_nanos,
            decreases k - order@.len(),
        {
            let mut best: usize = count;
            let mut best_total: u128 = 0;
            let mut j: usize = 0;
            while j < count
                invariant
                    self.wf(),
                    ks == self.sections.key_seq(),
                    m == self.sections.view(),
                    count == ks.len(),
                    picked@.len() == count,
                    j <= count,
                    best == count || (best < j && !picked@[best as int] && best_total == m[ks[best as int]].total_nanos),
                    best == count ==> forall|u: int| 0 <= u < j ==> picked@[u],
                    best < count ==> forall|u: int| 0 <= u < j && !picked@[u] ==> m[ks[u]].total_nanos <= best_total,
                decreases count - j,
            {
                if !picked[j] {
                    let tj = self.sections.value_at(j).total_nanos;
                    if best == count || tj > best_total {
                        best = j;
                        best_total = tj;
                    }
                }
                j = j + 1;
            }
            proof {
                if best == count {
                    // every index is picked, so the order holds all of them
                    assert forall|u: int| 0 <= u < count implies #[trigger] index_listed(order@, u) by {
                        assert(picked@[u]);
                    }
                    lemma_distinct_indices_cover(order@, count as int);
                    assert(false);
                }
            }
            let ghost order0 = order@;
            picked.set(best, true);
            order.push(best);
            proof {
                assert forall|j: int| 0 <= j < count implies (#[trigger] picked@[j] <==> order@.contains(j as usize)) by {
                    if j == best {
                        assert(order@[order0.len() as int] == best);
                    } else {
                        if order@.contains(j as usize) {
                            let a = choose|a: int| 0 <= a < order@.len() && order@[a] == j as usize;
                            assert(order0[a] == j as usize);
                        }
                        if order0.contains(j as usize) {
                            let a = choose|a: int| 0 <= a < order0.len() && order0[a] == j as usize;
                            assert(order@[a] == j as usize);
                        }
                    }
                }
                assert forall|a: int, b: int| 0 <= a < b < order@.len() implies order@[a] != order@[b] by {
                    if b == order0.len() {
                        assert(order0.contains(order@[a]));
                    }
                }
            }
        }
        let mut r: Vec<PerformanceHotspot> = Vec::new();
        let mut a: usize = 0;
        while a < order.len()
            invariant
                self.wf(),
                ks == self.sections.key_seq(),
                m == self.sections.view(),
                count == ks.len(),
                a <= order@.len(),
                r@.len() == a,
                forall|b: int| 0 <= b < order@.len() ==> #[trigger] order@[b] < count,
                forall|b: int| 0 <= b < a ==> (#[trigger] r@[b]).name@ == ks[order@[b] as int]
                    && hotspot_of(m, r@[b]),
            decreases order@.len() - a,
        {
            let idx = order[a];
            let s = self.sections.value_at(idx);
            let name = self.sections.key_at(idx).clone();
            let h = PerformanceHotspot {
                name,
                total_time: duration_from_nanos(s.total_nanos),
                average_time: s.average_time,
                call_count: s.call_count,
            };
            r.push(h);
            a = a + 1;
        }
        proof {
            assert forall|b: int| 0 <= b < r@.len() implies #[trigger] hotspot_names(r@)[b] == ks[order@[b] as int] by {}
            assert forall|x: int, y: int| 0 <= x < y < hotspot_names(r@).len()
                implies hotspot_names(r@)[x] != hotspot_names(r@)[y] by {
                assert(hotspot_names(r@)[x] == ks[order@[x] as int]);
                assert(hotspot_names(r@)[y] == ks[order@[y] as int]);
                assert(order@[x] != order@[y]);
            }
            assert forall|n: Seq<char>, i: int| #[trigger] m.contains_key(n)
                && !hotspot_names(r@).contains(n) && 0 <= i < r@.len()
                implies m[n].total_nanos <= #[trigger] m[r@[i].name@].total_nanos by {
                assert(ks.contains(n));
                let u = choose|u: int| 0 <= u < ks.len() && ks[u] == n;
                if picked@[u] {
                    assert(order@.contains(u as usize));
                    let a = choose|a: int| 0 <= a < order@.len() && order@[a] == u as usize;
                    assert(hotspot_names(r@)[a] == n);
                }
                assert(r@[i].name@ == ks[order@[i] as int]);
            }
        }
        r
    }

    /// Forgets every section, the stack and the frames, and starts a new frame.
    pub fn reset(&mut self)
        requires
            old(self).wf(),
        ensures
            final(self).wf(),
            final(self).is_enabled() == old(self).is_enabled(),
            final(self).section_map() == Map::<Seq<char>, ProfileSection>::empty(),
            final(self).stack() == Seq::<Seq<char>>::empty(),
            final(self).frames() == Seq::<FrameProfileData>::empty(),
            final(self).current().frame_number == 0,
    {
        self.sections.clear();
        self.call_stack.clear();
        self.frame_data.clear();
        self.current_frame = FrameProfileData {
            frame_number: 0,
            frame_start: now(),
            sections: StrMap::new(),
            total_frame_nanos: 0,
        };
        proof {
            assert(names(self.call_stack@) =~= Seq::<Seq<char>>::empty());
        }
    }

    /// The totals: sections, calls, time in sections, the mean frame length
    /// (the total over the number of frames, rounded down to the nanosecond)
    /// and the number of frames kept. The
    /// calls and times must fit in their types.
    pub fn get_summary(&self) -> (r: ProfilerSummary)
        requires
            self.wf(),
            sum_calls(self.section_map(), self.section_names()) <= u64::MAX,
            sum_section_nanos(self.section_map(), self.section_names()) <= DURATION_MAX_NANOS,
            sum_frame_nanos(self.frames()) <= DURATION_MAX_NANOS,
        ensures
            r.total_sections == self.section_map().len(),
            r.total_calls == sum_calls(self.section_map(), self.section_names()),
            r.total_time == duration_from_total(sum_section_nanos(self.section_map(), self.section_names()) as u128),
            r.frames_analyzed == self.frames().len(),
            self.frames().len() > 0 ==> r.average_frame_time == duration_from_total(
                (sum_frame_nanos(self.frames()) / self.frames().len()) as u128),
            self.frames().len() == 0 ==> r.average_frame_time == crate::performance::duration_of(0, 0),
    {
        let ghost m = self.section_map();
        let ghost ks = self.sections.key_seq();
        proof {
            self.sections.lemma_keys();
        }
        let count = self.sections.len();
        let mut calls: u64 = 0;
        let mut time: u128 = 0;
        let mut i: usize = 0;
        while i < count
            invariant
                self.wf(),
                ks == self.sections.key_seq(),
                m == self.sections.view(),
                count == ks.len(),
                i <= count,
                calls == sum_calls(m, ks.take(i as int)),
                time == sum_section_nanos(m, ks.take(i as int)),
                sum_calls(m, ks) <= u64::MAX,
                sum_section_nanos(m, ks) <= DURATION_MAX_NANOS,
            decreases count - i,
        {
            let s = self.sections.value_at(i);
            proof {
                assert(ks.take(i + 1).drop_last() =~= ks.take(i as int));
                lemma_sums_prefix(m, ks, i + 1);
            }
            calls = calls + s.call_count;
            time = time + s.total_nanos;
            i = i + 1;
        }
        proof {
            assert(ks.take(count as int) =~= ks);
        }
        let frames = self.frame_data.len();
        let mut frame_total: u128 = 0;
        let mut f: usize = 0;
        while f < frames
            invariant
                self.wf(),
                frames == self.frame_data@.len(),
                f <= frames,
                frame_total == sum_frame_nanos(self.frame_data@.take(f as int)),
                sum_frame_nanos(self.frame_data@) <= DURATION_MAX_NANOS,
            decreases frames - f,
        {
            proof {
                assert(self.frame_data@.take(f + 1).drop_last() =~= self.frame_data@.take(f as int));
                lemma_frame_sum_prefix(self.frame_data@, f + 1);
            }
            frame_total = frame_total + self.frame_data[f].total_frame_nanos;
            f = f + 1;
        }
        proof {
            assert(self.frame_data@.take(frames as int) =~= self.frame_data@);
        }
        let average = if frames > 0 {
            duration_from_nanos(frame_total / (frames as u128))
        } else {
            crate::performance::duration_new(0, 0)
        };
        ProfilerSummary {
            total_sections: count,
            total_calls: calls,
            total_time: duration_from_nanos(time),
            average_frame_time: average,
            frames_analyzed: frames,
        }
    }

    /// The last `frame_count` frames kept (all of them if fewer), oldest first.
    pub fn get_recent_frame_analysis(&self, frame_count: usize) -> (r: Vec<FrameAnalysisData>)
        requires
            self.wf(),
        ensures
            r@.len() == if self.frames().len() > frame_count { frame_count as nat } else { self.frames().len() },
            forall|i: int| 0 <= i < r@.len() ==> {
                let f = self.frames()[self.frames().len() - r@.len() + i];
                &&& (#[trigger] r@[i]).frame_number == f.frame_number
                &&& r@[i].total_time == duration_from_total(f.total_frame_nanos)
                &&& r@[i].sections@ == sections_in_order(f.sections)
            },
    {
        let len = self.frame_data.len();
        let start = if len > frame_count { len - frame_count } else { 0 };
        let mut r: Vec<FrameAnalysisData> = Vec::new();
        let mut i: usize = start;
        while i < len
            invariant
                self.wf(),
                len == self.frame_data@.len(),
                start <= i <= len,
                r@.len() == i - start,
                forall|j: int| 0 <= j < r@.len() ==> {
                    let f = self.frame_data@[start + j];
                    &&& (#[trigger] r@[j]).frame_number == f.frame_number
                    &&& r@[j].total_time == duration_from_total(f.total_frame_nanos)
                    &&& r@[j].sections@ == sections_in_order(f.sections)
                },
            decreases len - i,
        {
            let f = &self.frame_data[i];
            let sections = frame_sections(&f.sections);
            r.push(FrameAnalysisData {
                frame_number: f.frame_number,
                total_time: duration_from_nanos(f.total_frame_nanos),
                sections,
            });
            i = i + 1;
        }
        r
    }
}

/// The sections of a frame, in the order in which they were first entered.
pub open spec fn sections_in_order(m: StrMap<SectionData>) -> Seq<SectionData> {
    Seq::new(m.key_seq().len(), |i: int| m.view()[m.key_seq()[i]])
}

/// The sections of a frame, in storage order.
fn frame_sections(m: &StrMap<SectionData>) -> (r: Vec<SectionData>)
    requires
        m.wf(),
    ensures
        r@ == sections_in_order(*m),
{
    proof {
        m.lemma_keys();
    }
    let n = m.len();
    let mut r: Vec<SectionData> = Vec::new();
    let mut i: usize = 0;
    while i < n
        invariant
            m.wf(),
            n == m.key_seq().len(),
            i <= n,
            r@.len() == i,
            forall|j: int| 0 <= j < i ==> #[trigger] r@[j] == m.view()[m.key_seq()[j]],
        decreases n - i,
    {
        let v = m.value_at(i);
        r.push(SectionData {
            name: v.name.clone(),
            start_time: v.start_time,
            duration_nanos: v.duration_nanos,
            call_count: v.call_count,
            depth: v.depth,
        });
        i = i + 1;
    }
    proof {
        assert(r@ =~= sections_in_order(*m));
    }
    r
}

/// The names of the hotspots.
pub open spec fn hotspot_names(h: Seq<PerformanceHotspot>) -> Seq<Seq<char>> {
    h.map_values(|x: PerformanceHotspot| x.name@)
}

/// `h` reports the section of its name in `m`.
pub open spec fn hotspot_of(m: Map<Seq<char>, ProfileSection>, h: PerformanceHotspot) -> bool {
    &&& m.contains_key(h.name@)
    &&& h.total_time == duration_from_total(m[h.name@].total_nanos)
    &&& h.average_time == m[h.name@].average_time
    &&& h.call_count == m[h.name@].call_count
}

/// The calls of the sections named in `ks`.
pub open spec fn sum_calls(m: Map<Seq<char>, ProfileSection>, ks: Seq<Seq<char>>) -> nat
    decreases ks.len(),
{
    if ks.len() == 0 { 0 } else { sum_calls(m, ks.drop_last()) + m[ks.last()].call_count as nat }
}

/// The nanoseconds spent in the sections named in `ks`.
pub open spec fn sum_section_nanos(m: Map<Seq<char>, ProfileSection>, ks: Seq<Seq<char>>) -> nat
    decreases ks.len(),
{
    if ks.len() == 0 { 0 } else { sum_section_nanos(m, ks.drop_last()) + m[ks.last()].total_nanos as nat }
}

/// The nanoseconds of the frames `fs`.
pub open spec fn sum_frame_nanos(fs: Seq<FrameProfileData>) -> nat
    decreases fs.len(),
{
    if fs.len() == 0 { 0 } else { sum_frame_nanos(fs.drop_last()) + fs.last().total_frame_nanos as nat }
}

proof fn lemma_sums_prefix(m: Map<Seq<char>, ProfileSection>, ks: Seq<Seq<char>>, i: int)
    requires
        0 <= i <= ks.len(),
    ensures
        sum_calls(m, ks.take(i)) <= sum_calls(m, ks),
        sum_section_nanos(m, ks.take(i)) <= sum_section_nanos(m, ks),
    decreases ks.len(),
{
    if i < ks.len() {
        assert(ks.drop_last().take(i) =~= ks.take(i));
        lemma_sums_prefix(m, ks.drop_last(), i);
    } else {
        assert(ks.take(i) =~= ks);
    }
}

proof fn lemma_frame_sum_prefix(fs: Seq<FrameProfileData>, i: int)
    requires
        0 <= i <= fs.len(),
    ensures
        sum_frame_nanos(fs.take(i)) <= sum_frame_nanos(fs),
    decreases fs.len(),
{
    if i < fs.len() {
        assert(fs.drop_last().take(i) =~= fs.take(i));
        lemma_frame_sum_prefix(fs.drop_last(), i);
    } else {
        assert(fs.take(i) =~= fs);
    }
}

/// Whether the index `u` occurs in `s`.
spec fn index_listed(s: Seq<usize>, u: int) -> bool {
    s.contains(u as usize)
}

/// Distinct indices below `n` that include every index below `n` number `n`.
proof fn lemma_distinct_indices_cover(s: Seq<usize>, n: int)
    requires
        forall|a: int, b: int| 0 <= a < b < s.len() ==> s[a] != s[b],
        forall|u: int| 0 <= u < n ==> #[trigger] index_listed(s, u),
        0 <= n <= usize::MAX,
    ensures
        s.len() >= n,
{
    let si = s.map_values(|x: usize| x as int);
    assert forall|a: int, b: int| 0 <= a < b < si.len() implies si[a] != si[b] by {
        assert(s[a] != s[b]);
    }
    assert(si.no_duplicates());
    si.unique_seq_to_set();
    let range = vstd::set_lib::set_int_range(0, n);
    vstd::set_lib::lemma_int_range(0, n);
    assert(range.subset_of(si.to_set())) by {
        assert forall|u: int| range.contains(u) implies si.to_set().contains(u) by {
            assert(index_listed(s, u));
            let a = choose|a: int| 0 <= a < s.len() && s[a] == u as usize;
            assert(si[a] == u);
        }
    }
    vstd::set_lib::lemma_len_subset(range, si.to_set());
}

/// A section with its statistics, ranked by time.
pub struct PerformanceHotspot {
    pub name: String,
    pub total_time: Duration,
    pub average_time: Duration,
    pub call_count: u64,
}

/// One frame as the analysis reports it.
pub struct FrameAnalysisData {
    pub frame_number: u64,
    pub total_time: Duration,
    pub sections: Vec<SectionData>,
}

/// The profiler's totals.
pub struct ProfilerSummary {
    pub total_sections: usize,
    pub total_calls: u64,
    pub total_time: Duration,
    pub average_frame_time: Duration,
    pub frames_analyzed: usize,
}

/// The memory the profiler's records take, in bytes.
#[derive(Debug, Clone, Copy, PartialEq, Eq, Structural)]
pub struct ProfilerMemoryUsage {
    pub total_bytes: usize,
    pub sections_bytes: usize,
    pub frame_data_bytes: usize,
    pub call_stack_bytes: usize,
}

/// The statistics `after` are `before` once section `name` closed after
/// `n` nanoseconds under `parent`: the section is updated, the parent (if
/// it has statistics) lists it as a child once, and nothing else changes.
pub open spec fn sections_after_pop(before: Map<Seq<char>, ProfileSection>,
    after: Map<Seq<char>, ProfileSection>, name: Seq<char>, parent: Option<Seq<char>>, n: nat) -> bool {
    let closed = if before.contains_key(name) { Some(before[name]) } else { None };
    &&& after.dom() == before.dom().insert(name)
    &&& forall|k: Seq<char>| #[trigger] after.contains_key(k) && k != name && parent != Some(k)
        ==> after[k] == before[k]
    &&& match parent {
        Some(p) if p == name => {
            &&& section_closed_fields(closed, after[name], name, parent, n)
            &&& names(after[name].children@) == with_child(closed_children(closed), name)
        },
        Some(p) => {
            &&& section_closed(closed, after[name], name, parent, n)
            &&& before.contains_key(p) ==> {
                &&& names(after[p].children@) == with_child(names(before[p].children@), name)
                &&& after[p].name == before[p].name
                &&& after[p].total_nanos == before[p].total_nanos
                &&& after[p].call_count == before[p].call_count
                &&& after[p].parent == before[p].parent
            }
        },
        None => section_closed(closed, after[name], name, parent, n),
    }
}

/// The children of a section, none for a new one.
pub open spec fn closed_children(s: Option<ProfileSection>) -> Seq<Seq<char>> {
    match s {
        Some(x) => names(x.children@),
        None => Seq::empty(),
    }
}

/// `children` with `c` added at the end unless it is there already.
pub open spec fn with_child(children: Seq<Seq<char>>, c: Seq<char>) -> Seq<Seq<char>> {
    if children.contains(c) {
        children
    } else {
        children.push(c)
    }
}

/// `s` with its first occurrence of `x` taken out.
pub open spec fn stack_without(s: Seq<Seq<char>>, x: Seq<char>) -> Seq<Seq<char>> {
    match s.index_of_first(x) {
        Some(i) => s.subrange(0, i) + s.subrange(i + 1, s.len() as int),
        None => s,
    }
}

/// The last name of `s`, if any.
pub open spec fn stack_top(s: Seq<Seq<char>>) -> Option<Seq<char>> {
    if s.len() > 0 {
        Some(s.last())
    } else {
        None
    }
}

proof fn lemma_stack_without(s: Seq<Seq<char>>, x: Seq<char>, pos: int)
    requires
        0 <= pos < s.len(),
        s[pos] == x,
        forall|j: int| 0 <= j < pos ==> s[j] != x,
    ensures
        stack_without(s, x) == s.subrange(0, pos) + s.subrange(pos + 1, s.len() as int),
{
    assert(s.contains(x));
    s.index_of_first_ensures(x);
    let i = s.index_of_first(x)->0;
    if i < pos {
        assert(s[i] != x);
    }
    if i > pos {
        assert(s[pos] != x);
    }
}

proof fn lemma_stack_without_absent(s: Seq<Seq<char>>, x: Seq<char>)
    requires
        forall|j: int| 0 <= j < s.len() ==> s[j] != x,
    ensures
        stack_without(s, x) == s,
{
    s.index_of_first_ensures(x);
}

/// Opening a section whose name is not on the stack and closing it again
/// gives back the stack as it was; the section it sits in is on top again.
pub proof fn lemma_push_pop_restores_stack(s: Seq<Seq<char>>, x: Seq<char>)
    requires
        !s.contains(x),
    ensures
        stack_without(s.push(x), x) == s,
        stack_top(stack_without(s.push(x), x)) == stack_top(s),
{
    let t = s.push(x);
    assert forall|j: int| 0 <= j < s.len() implies t[j] != x by {
        assert(t[j] == s[j]);
    }
    lemma_stack_without(t, x, s.len() as int);
    assert(t.subrange(0, s.len() as int) + t.subrange(s.len() as int + 1, t.len() as int) =~= s);
}

} // verus!
