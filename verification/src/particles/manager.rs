//! The particle system manager's bookkeeping: the emitters by number, their
//! states and how many particles each holds, and the particle budget. The
//! particles themselves move in floating point; after an emitter has been
//! run for a frame the caller reports its state and particle count here.
use std::collections::HashMap;
use vstd::prelude::*;
use crate::collections::{lemma_map_sum_empty, lemma_map_sum_insert, lemma_take_push_to_set, map_keys, map_sum};
use crate::particles::emitter::EmitterState;
use crate::particles::ParticleStats;
use crate::performance::memory_tracker::lemma_map_sum_submap;

verus! {

broadcast use vstd::std_specs::hash::group_hash_axioms;

/// What the manager keeps of an emitter.
#[derive(Debug, Clone, Copy, PartialEq, Eq, Structural)]
pub struct EmitterRecord {
    pub id: u64,
    pub state: EmitterState,
    pub particle_count: usize,
}

/// The emitters by number, the next emitter number, the particle budget and
/// the particles counted in the last update.
pub struct ParticleSystemManager {
    emitters: HashMap<u64, EmitterRecord>,
    next_id: u64,
    max_particles: usize,
    current_particle_count: usize,
}

/// The particles an emitter holds.
pub open spec fn particles_of(e: EmitterRecord) -> nat {
    e.particle_count as nat
}

/// One for a playing emitter, none otherwise.
pub open spec fn playing_of(e: EmitterRecord) -> nat {
    if e.state == EmitterState::Playing { 1 } else { 0 }
}

/// The particles of the emitters `m` together.
pub open spec fn particle_total(m: Map<u64, EmitterRecord>) -> nat {
    map_sum(m, |e: EmitterRecord| particles_of(e))
}

/// How many emitters of `m` play.
pub open spec fn playing_count(m: Map<u64, EmitterRecord>) -> nat {
    map_sum(m, |e: EmitterRecord| playing_of(e))
}

/// `m` with the emitter numbered `id`, if there is one, changed by `f`.
pub open spec fn changed_emitter(m: Map<u64, EmitterRecord>, id: u64, f: spec_fn(EmitterRecord) -> EmitterRecord) -> Map<u64, EmitterRecord> {
    if m.contains_key(id) { m.insert(id, f(m[id])) } else { m }
}

/// An emitter after `start`: playing.
pub open spec fn started_emitter(e: EmitterRecord) -> EmitterRecord {
    EmitterRecord { state: EmitterState::Playing, ..e }
}

/// An emitter after `stop`: stopped, its particles gone.
pub open spec fn stopped_emitter(e: EmitterRecord) -> EmitterRecord {
    EmitterRecord { state: EmitterState::Stopped, particle_count: 0, ..e }
}

/// An emitter after `pause`: a playing one pauses.
pub open spec fn paused_emitter(e: EmitterRecord) -> EmitterRecord {
    if e.state == EmitterState::Playing { EmitterRecord { state: EmitterState::Paused, ..e } } else { e }
}

/// An emitter with no particles.
pub open spec fn cleared_emitter(e: EmitterRecord) -> EmitterRecord {
    EmitterRecord { particle_count: 0, ..e }
}

impl ParticleSystemManager {
    /// The emitters by number.
    pub closed spec fn spec_emitters(&self) -> Map<u64, EmitterRecord> {
        self.emitters@
    }

    /// The number the next emitter gets.
    pub closed spec fn spec_next_id(&self) -> u64 {
        self.next_id
    }

    /// The most particles the emitters may hold together.
    pub closed spec fn spec_max_particles(&self) -> usize {
        self.max_particles
    }

    /// The particles counted since the last update began.
    pub closed spec fn spec_current_count(&self) -> usize {
        self.current_particle_count
    }

    /// Every emitter is kept under its own number, which was handed out
    /// before the next one.
    pub closed spec fn wf(&self) -> bool {
        forall|k: u64| #[trigger] self.emitters@.contains_key(k)
            ==> self.emitters@[k].id == k && k < self.next_id
    }

    /// Every emitter is kept under its own number, which was handed out
    /// before the next one; there are finitely many.
    pub proof fn lemma_ids_unique(&self)
        requires
            self.wf(),
        ensures
            self.spec_emitters().dom().finite(),
            forall|k: u64| #[trigger] self.spec_emitters().contains_key(k)
                ==> self.spec_emitters()[k].id == k && k < self.spec_next_id(),
    {
    }

    /// No emitters, numbers from 1, a budget of `max_particles`.
    pub fn new(max_particles: usize) -> (r: ParticleSystemManager)
        ensures
            r.wf(),
            r.spec_emitters() == Map::<u64, EmitterRecord>::empty(),
            r.spec_next_id() == 1,
            r.spec_max_particles() == max_particles,
            r.spec_current_count() == 0,
    {
        ParticleSystemManager { emitters: HashMap::new(), next_id: 1, max_particles, current_particle_count: 0 }
    }

    /// The number the next emitter gets.
    pub fn next_id(&self) -> (r: u64)
        ensures
            r == self.spec_next_id(),
    {
        self.next_id
    }

    /// Adds a stopped emitter with no particles and returns its number.
    pub fn create_emitter(&mut self) -> (r: u64)
        requires
            old(self).wf(),
            old(self).spec_next_id() < u64::MAX,
        ensures
            final(self).wf(),
            r == old(self).spec_next_id(),
            final(self).spec_next_id() == r + 1,
            !old(self).spec_emitters().contains_key(r),
            final(self).spec_emitters() == old(self).spec_emitters().insert(r,
                EmitterRecord { id: r, state: EmitterState::Stopped, particle_count: 0 }),
            final(self).spec_max_particles() == old(self).spec_max_particles(),
            final(self).spec_current_count() == old(self).spec_current_count(),
    {
        let id = self.next_id;
        self.next_id = self.next_id + 1;
        self.emitters.insert(id, EmitterRecord { id, state: EmitterState::Stopped, particle_count: 0 });
        id
    }

    /// Removes the emitter numbered `id` and takes its particles off the
    /// count; whether there was one.
    pub fn remove_emitter(&mut self, id: u64) -> (r: bool)
        requires
            old(self).wf(),
            old(self).spec_emitters().contains_key(id) ==>
                old(self).spec_emitters()[id].particle_count <= old(self).spec_current_count(),
        ensures
            final(self).wf(),
            r == old(self).spec_emitters().contains_key(id),
            final(self).spec_emitters() == old(self).spec_emitters().remove(id),
            !final(self).spec_emitters().contains_key(id),
            r ==> final(self).spec_current_count()
                == old(self).spec_current_count() - old(self).spec_emitters()[id].particle_count,
            !r ==> final(self).spec_current_count() == old(self).spec_current_count(),
            final(self).spec_next_id() == old(self).spec_next_id(),
            final(self).spec_max_particles() == old(self).spec_max_particles(),
    {
        match self.emitters.remove(&id) {
            Some(e) => {
                self.current_particle_count = self.current_particle_count - e.particle_count;
                true
            },
            None => false,
        }
    }

    /// Sets the emitter numbered `id`, if there is one, to `f` of it.
    fn change(&mut self, id: u64, started: bool, stopped: bool)
        requires
            old(self).wf(),
            !(started && stopped),
        ensures
            final(self).wf(),
            final(self).spec_emitters() == changed_emitter(old(self).spec_emitters(), id,
                if started { |e| started_emitter(e) } else if stopped { |e| stopped_emitter(e) } else { |e| paused_emitter(e) }),
            final(self).spec_next_id() == old(self).spec_next_id(),
            final(self).spec_max_particles() == old(self).spec_max_particles(),
            final(self).spec_current_count() == old(self).spec_current_count(),
    {
        let found = match self.emitters.get(&id) {
            Some(e) => Some(*e),
            None => None,
        };
        if let Some(e) = found {
            let next = if started {
                EmitterRecord { state: EmitterState::Playing, ..e }
            } else if stopped {
                EmitterRecord { state: EmitterState::Stopped, particle_count: 0, ..e }
            } else {
                match e.state {
                    EmitterState::Playing => EmitterRecord { state: EmitterState::Paused, ..e },
                    _ => e,
                }
            };
            self.emitters.insert(id, next);
        }
    }

    /// Starts the emitter numbered `id`, if there is one.
    pub fn start_emitter(&mut self, id: u64)
        requires
            old(self).wf(),
        ensures
            final(self).wf(),
            final(self).spec_emitters() == changed_emitter(old(self).spec_emitters(), id, |e| started_emitter(e)),
            final(self).spec_next_id() == old(self).spec_next_id(),
            final(self).spec_max_particles() == old(self).spec_max_particles(),
            final(self).spec_current_count() == old(self).spec_current_count(),
    {
        self.change(id, true, false);
    }

    /// Stops the emitter numbered `id`, if there is one; its particles go.
    pub fn stop_emitter(&mut self, id: u64)
        requires
            old(self).wf(),
        ensures
            final(self).wf(),
            final(self).spec_emitters() == changed_emitter(old(self).spec_emitters(), id, |e| stopped_emitter(e)),
            final(self).spec_next_id() == old(self).spec_next_id(),
            final(self).spec_max_particles() == old(self).spec_max_particles(),
            final(self).spec_current_count() == old(self).spec_current_count(),
    {
        self.change(id, false, true);
    }

    /// Pauses the emitter numbered `id`, if there is one and it plays.
    pub fn pause_emitter(&mut self, id: u64)
        requires
            old(self).wf(),
        ensures
            final(self).wf(),
            final(self).spec_emitters() == changed_emitter(old(self).spec_emitters(), id, |e| paused_emitter(e)),
            final(self).spec_next_id() == old(self).spec_next_id(),
            final(self).spec_max_particles() == old(self).spec_max_particles(),
            final(self).spec_current_count() == old(self).spec_current_count(),
    {
        self.change(id, false, false);
    }

    /// Starts an update: no particles counted yet.
    pub fn begin_update(&mut self)
        requires
            old(self).wf(),
        ensures
            final(self).wf(),
            final(self).spec_current_count() == 0,
            final(self).spec_emitters() == old(self).spec_emitters(),
            final(self).spec_next_id() == old(self).spec_next_id(),
            final(self).spec_max_particles() == old(self).spec_max_particles(),
    {
        self.current_particle_count = 0;
    }

    /// The particles the next emitter to be run may still add: the budget
    /// less what was counted so far.
    pub fn update_budget(&self) -> (r: usize)
        requires
            self.spec_current_count() <= self.spec_max_particles(),
        ensures
            r == self.spec_max_particles() - self.spec_current_count(),
    {
        self.max_particles - self.current_particle_count
    }

    /// Records that the emitter numbered `id` was run: its state and
    /// particles now, which join the count.
    pub fn record_emitter_update(&mut self, id: u64, state: EmitterState, particle_count: usize)
        requires
            old(self).wf(),
            old(self).spec_current_count() + particle_count <= usize::MAX,
        ensures
            final(self).wf(),
            final(self).spec_emitters() == changed_emitter(old(self).spec_emitters(), id,
                |e: EmitterRecord| EmitterRecord { state, particle_count, ..e }),
            old(self).spec_emitters().contains_key(id) ==>
                final(self).spec_current_count() == old(self).spec_current_count() + particle_count,
            !old(self).spec_emitters().contains_key(id) ==>
                final(self).spec_current_count() == old(self).spec_current_count(),
            final(self).spec_next_id() == old(self).spec_next_id(),
            final(self).spec_max_particles() == old(self).spec_max_particles(),
    {
        let found = match self.emitters.get(&id) {
            Some(e) => Some(*e),
            None => None,
        };
        if let Some(e) = found {
            self.emitters.insert(id, EmitterRecord { state, particle_count, ..e });
            self.current_particle_count = self.current_particle_count + particle_count;
        }
    }

    /// Removes every particle: each emitter is empty and the count is zero.
    pub fn clear_all_particles(&mut self)
        requires
            old(self).wf(),
        ensures
            final(self).wf(),
            final(self).spec_emitters().dom() == old(self).spec_emitters().dom(),
            forall|k: u64| #[trigger] final(self).spec_emitters().contains_key(k)
                ==> final(self).spec_emitters()[k] == cleared_emitter(old(self).spec_emitters()[k]),
            final(self).spec_current_count() == 0,
            final(self).spec_next_id() == old(self).spec_next_id(),
            final(self).spec_max_particles() == old(self).spec_max_particles(),
    {
        let ids = map_keys(&self.emitters);
        let ghost m0 = self.emitters@;
        let mut i: usize = 0;
        while i < ids.len()
            invariant
                self.wf(),
                i <= ids@.len(),
                ids@.no_duplicates(),
                forall|k: u64| m0.contains_key(k) <==> ids@.contains(k),
                self.emitters@.dom() == m0.dom(),
                self.next_id == old(self).next_id,
                self.max_particles == old(self).max_particles,
                forall|j: int| 0 <= j < i ==> #[trigger] self.emitters@[ids@[j]] == cleared_emitter(m0[ids@[j]]),
                forall|k: u64| #[trigger] self.emitters@.contains_key(k) && !ids@.take(i as int).contains(k)
                    ==> self.emitters@[k] == m0[k],
            decreases ids@.len() - i,
        {
            let id = ids[i];
            assert(ids@.contains(id));
            let found = match self.emitters.get(&id) {
                Some(e) => Some(*e),
                None => None,
            };
            if let Some(e) = found {
                proof {
                    assert(!ids@.take(i as int).contains(id)) by {
                        if ids@.take(i as int).contains(id) {
                            let j = choose|j: int| 0 <= j < i && ids@.take(i as int)[j] == id;
                            assert(ids@[j] == ids@[i as int]);
                        }
                    }
                }
                self.emitters.insert(id, EmitterRecord { particle_count: 0, ..e });
            }
            proof {
                assert forall|j: int| 0 <= j < i + 1 implies #[trigger] self.emitters@[ids@[j]] == cleared_emitter(m0[ids@[j]]) by {
                    if j < i {
                        assert(ids@[j] != id);
                    }
                }
                assert forall|k: u64| #[trigger] self.emitters@.contains_key(k) && !ids@.take(i + 1).contains(k)
                    implies self.emitters@[k] == m0[k] by {
                    assert(ids@.take(i + 1)[i as int] == id);
                    if ids@.take(i as int).contains(k) {
                        let j = choose|j: int| 0 <= j < i && ids@.take(i as int)[j] == k;
                        assert(ids@.take(i + 1)[j] == k);
                    }
                }
            }
            i = i + 1;
        }
        proof {
            assert forall|k: u64| #[trigger] self.emitters@.contains_key(k)
                implies self.emitters@[k] == cleared_emitter(m0[k]) by {
                let j = ids@.index_of(k);
                assert(self.emitters@[ids@[j]] == cleared_emitter(m0[ids@[j]]));
            }
        }
        self.current_particle_count = 0;
    }

    /// The numbers of the emitters, each once, in no particular order.
    pub fn get_emitter_ids(&self) -> (r: Vec<u64>)
        ensures
            r@.no_duplicates(),
            forall|k: u64| self.spec_emitters().contains_key(k) <==> r@.contains(k),
    {
        map_keys(&self.emitters)
    }

    /// The counts: emitters, playing emitters, particles and the budget.
    /// The particles together must fit in `usize`.
    pub fn get_stats(&self) -> (r: ParticleStats)
        requires
            particle_total(self.spec_emitters()) <= usize::MAX,
        ensures
            r.total_emitters == self.spec_emitters().len(),
            r.active_emitters == playing_count(self.spec_emitters()),
            r.total_particles == particle_total(self.spec_emitters()),
            r.max_particles == self.spec_max_particles(),
    {
        let ids = map_keys(&self.emitters);
        let ghost m = self.emitters@;
        let ghost fp = |e: EmitterRecord| particles_of(e);
        let ghost fa = |e: EmitterRecord| playing_of(e);
        let mut total: usize = 0;
        let mut active: usize = 0;
        let mut i: usize = 0;
        proof {
            assert(m.restrict(ids@.take(0).to_set()) =~= Map::<u64, EmitterRecord>::empty());
            lemma_map_sum_empty::<u64, EmitterRecord>(fp);
            lemma_map_sum_empty::<u64, EmitterRecord>(fa);
        }
        while i < ids.len()
            invariant
                m == self.emitters@,
                m.dom().finite(),
                i <= ids@.len(),
                ids@.no_duplicates(),
                forall|k: u64| m.contains_key(k) <==> ids@.contains(k),
                particle_total(m) <= usize::MAX,
                fp == (|e: EmitterRecord| particles_of(e)),
                fa == (|e: EmitterRecord| playing_of(e)),
                total == map_sum(m.restrict(ids@.take(i as int).to_set()), fp),
                active == map_sum(m.restrict(ids@.take(i as int).to_set()), fa),
                active <= i,
            decreases ids@.len() - i,
        {
            let id = ids[i];
            assert(ids@.contains(id));
            let e = match self.emitters.get(&id) {
                Some(e) => *e,
                None => {
                    assert(false);
                    EmitterRecord { id, state: EmitterState::Stopped, particle_count: 0 }
                },
            };
            proof {
                lemma_restrict_sum_step(m, ids@, i as int, fp);
                lemma_restrict_sum_step(m, ids@, i as int, fa);
                let sub = m.restrict(ids@.take(i + 1).to_set());
                assert(sub.submap_of(m));
                lemma_map_sum_submap(sub, m, fp);
            }
            total = total + e.particle_count;
            if e.state == EmitterState::Playing {
                active = active + 1;
            }
            i = i + 1;
        }
        proof {
            assert(ids@.take(ids@.len() as int) =~= ids@);
            assert(m.restrict(ids@.to_set()) =~= m);
            assert(ids@.to_set().len() == ids@.len()) by {
                ids@.unique_seq_to_set();
            }
            assert(ids@.to_set() =~= m.dom());
        }
        ParticleStats {
            total_emitters: ids.len(),
            active_emitters: active,
            total_particles: total,
            max_particles: self.max_particles,
        }
    }
}

/// Adding the next key of `s` to the keys summed over adds its value.
proof fn lemma_restrict_sum_step(m: Map<u64, EmitterRecord>, s: Seq<u64>, k: int, f: spec_fn(EmitterRecord) -> nat)
    requires
        0 <= k < s.len(),
        s.no_duplicates(),
        m.contains_key(s[k]),
        m.dom().finite(),
    ensures
        map_sum(m.restrict(s.take(k + 1).to_set()), f) == map_sum(m.restrict(s.take(k).to_set()), f) + f(m[s[k]]),
{
    let a = s[k];
    lemma_take_push_to_set(s, k);
    let mk = m.restrict(s.take(k).to_set());
    let mk1 = m.restrict(s.take(k + 1).to_set());
    assert(!s.take(k).contains(a)) by {
        if s.take(k).contains(a) {
            let j = choose|j: int| 0 <= j < k && #[trigger] s.take(k)[j] == a;
            assert(s[j] == s[k]);
        }
    }
    assert(mk1 =~= mk.insert(a, m[a]));
    assert(mk.dom().finite()) by {
        assert(mk.dom().subset_of(m.dom()));
        vstd::set_lib::lemma_set_subset_finite(m.dom(), mk.dom());
    }
    lemma_map_sum_insert(mk, f, a, m[a]);
    assert(mk.remove(a) =~= mk);
}

/// Removing an emitter just created gives back the emitters as they were.
pub proof fn lemma_create_then_remove(m: Map<u64, EmitterRecord>, e: EmitterRecord)
    requires
        !m.contains_key(e.id),
    ensures
        m.insert(e.id, e).remove(e.id) == m,
{
    assert(m.insert(e.id, e).remove(e.id) =~= m);
}

} // verus!
