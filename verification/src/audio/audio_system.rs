//! The audio system's bookkeeping: the clips by name and the sources that
//! play them, by entity. Samples, volumes, pitches and positions in space
//! are floating point and kept beside it; a source here is where it is in
//! its clip and whether it plays.
use vstd::prelude::*;
use vstd::string::StringExecFns;
use crate::audio::PlaybackState;
use crate::collections::{owned, StrMap};
use crate::EngineError;

verus! {

/// A clip: its name, how many samples it has, at what rate and on how many
/// channels, and whether it loops.
pub struct AudioClip {
    pub name: String,
    pub sample_count: usize,
    pub sample_rate: u32,
    pub channels: u16,
    pub looping: bool,
}

impl AudioClip {
    /// A clip that does not loop.
    pub fn new(name: &str, sample_count: usize, sample_rate: u32, channels: u16) -> (r: AudioClip)
        ensures
            r.name@ == name@,
            r.sample_count == sample_count,
            r.sample_rate == sample_rate,
            r.channels == channels,
            !r.looping,
    {
        AudioClip { name: owned(name), sample_count, sample_rate, channels, looping: false }
    }

    /// The clip, looping or not.
    pub fn set_looping(self, looping: bool) -> (r: AudioClip)
        ensures
            r.name == self.name,
            r.sample_count == self.sample_count,
            r.sample_rate == self.sample_rate,
            r.channels == self.channels,
            r.looping == looping,
    {
        AudioClip { looping, ..self }
    }
}

/// A source playing a clip: the clip's length, rate and looping, where the
/// source is in it, whether it plays, and whether the source itself loops.
#[derive(Clone, Copy, PartialEq, Eq, Structural)]
pub struct AudioSourceState {
    pub clip_len: usize,
    pub clip_rate: u32,
    pub clip_looping: bool,
    pub position: usize,
    pub state: PlaybackState,
    pub looping: bool,
}

/// Counts over the system.
pub struct AudioStats {
    pub total_clips: usize,
    pub active_sources: usize,
    pub playing_sources: usize,
    pub paused_sources: usize,
    pub is_muted: bool,
}

/// The clips and the active sources.
pub struct AudioSystem {
    clips: StrMap<AudioClip>,
    sources: Vec<(u64, AudioSourceState)>,
    initialized: bool,
    muted: bool,
}

/// The entities of a list of sources, in order.
pub open spec fn source_ids(s: Seq<(u64, AudioSourceState)>) -> Seq<u64> {
    s.map_values(|p: (u64, AudioSourceState)| p.0)
}

/// No entity has two sources.
pub open spec fn ids_unique(s: Seq<(u64, AudioSourceState)>) -> bool {
    forall|i: int, j: int| 0 <= i < j < s.len() ==> #[trigger] s[i].0 != #[trigger] s[j].0
}

/// A source that starts playing `clip` from the start, not looping itself.
pub open spec fn fresh_source(clip: AudioClip) -> AudioSourceState {
    AudioSourceState {
        clip_len: clip.sample_count,
        clip_rate: clip.sample_rate,
        clip_looping: clip.looping,
        position: 0,
        state: PlaybackState::Playing,
        looping: false,
    }
}

/// `s` with the source of `entity` set to `st`: in its place if the entity
/// had one, else at the end.
pub open spec fn with_source(s: Seq<(u64, AudioSourceState)>, entity: u64, st: AudioSourceState) -> Seq<(u64, AudioSourceState)> {
    match source_ids(s).index_of_first(entity) {
        Some(i) => s.update(i, (entity, st)),
        None => s.push((entity, st)),
    }
}

/// `s` with the source of `entity`, if it has one, changed by `f`.
pub open spec fn changed_source(s: Seq<(u64, AudioSourceState)>, entity: u64,
    f: spec_fn(AudioSourceState) -> AudioSourceState) -> Seq<(u64, AudioSourceState)> {
    match source_ids(s).index_of_first(entity) {
        Some(i) => s.update(i, (entity, f(s[i].1))),
        None => s,
    }
}

/// A stopped source: back at the start.
pub open spec fn stopped_source(st: AudioSourceState) -> AudioSourceState {
    AudioSourceState { state: PlaybackState::Stopped, position: 0, ..st }
}

/// A paused source.
pub open spec fn paused_source(st: AudioSourceState) -> AudioSourceState {
    AudioSourceState { state: PlaybackState::Paused, ..st }
}

/// A resumed source: a paused one plays again.
pub open spec fn resumed_source(st: AudioSourceState) -> AudioSourceState {
    if st.state == PlaybackState::Paused {
        AudioSourceState { state: PlaybackState::Playing, ..st }
    } else {
        st
    }
}

/// A source that loops or not.
pub open spec fn looping_source(st: AudioSourceState, looping: bool) -> AudioSourceState {
    AudioSourceState { looping, ..st }
}

/// A source after a frame of `n` samples: a playing source moves on by `n`;
/// one that reaches the end of its clip starts over if it or its clip
/// loops, and is done (`None`) if not. Other sources stay as they are.
pub open spec fn advance_source(st: AudioSourceState, n: nat) -> Option<AudioSourceState> {
    if st.state != PlaybackState::Playing {
        Some(st)
    } else if st.position + n >= st.clip_len {
        if st.looping || st.clip_looping {
            Some(AudioSourceState { position: 0, ..st })
        } else {
            None
        }
    } else {
        Some(AudioSourceState { position: (st.position + n) as usize, ..st })
    }
}

/// A source set to loop is never dropped by a frame: when a playing one
/// reaches the end of its clip it starts again from the beginning, whether
/// or not the clip itself loops, and otherwise it moves on or waits as any
/// source does.
pub proof fn lemma_looping_source_restarts(st: AudioSourceState, n: nat)
    requires
        st.looping,
    ensures
        advance_source(st, n) is Some,
        st.state == PlaybackState::Playing && st.position + n >= st.clip_len ==> {
            let r = advance_source(st, n)->0;
            &&& r.position == 0
            &&& r.state == PlaybackState::Playing
            &&& r.looping
            &&& r.clip_len == st.clip_len
            &&& r.clip_rate == st.clip_rate
            &&& r.clip_looping == st.clip_looping
        },
{
}

/// A frame drops no source that is set to loop: after advancing, every
/// source of `s` whose looping flag is set is still there, in its place
/// among the others.
pub proof fn lemma_looping_sources_survive(s: Seq<(u64, AudioSourceState)>, n: Seq<usize>)
    requires
        n.len() == s.len(),
        forall|i: int| 0 <= i < s.len() ==> (#[trigger] s[i]).1.looping,
    ensures
        advance_all(s, n).len() == s.len(),
        forall|i: int| 0 <= i < s.len() ==> (#[trigger] advance_all(s, n)[i]).0 == s[i].0,
    decreases s.len(),
{
    if s.len() > 0 {
        let t = s.drop_last();
        assert forall|i: int| 0 <= i < t.len() implies (#[trigger] t[i]).1.looping by {
            assert(t[i] == s[i]);
        }
        lemma_looping_sources_survive(t, n.take(s.len() - 1));
        lemma_looping_source_restarts(s.last().1, n[s.len() - 1] as nat);
        let r = advance_all(s, n);
        assert forall|i: int| 0 <= i < s.len() implies (#[trigger] r[i]).0 == s[i].0 by {
            if i < t.len() {
                assert(s[i] == t[i]);
            }
        }
    }
}

/// The sources `s` after a frame in which source `i` has `n[i]` samples:
/// each advanced, the finished ones dropped, the order kept.
pub open spec fn advance_all(s: Seq<(u64, AudioSourceState)>, n: Seq<usize>) -> Seq<(u64, AudioSourceState)>
    decreases s.len(),
{
    if s.len() == 0 {
        Seq::empty()
    } else {
        let rest = advance_all(s.drop_last(), n.take(s.len() - 1));
        match advance_source(s.last().1, n[s.len() - 1] as nat) {
            Some(st) => rest.push((s.last().0, st)),
            None => rest,
        }
    }
}

/// Moving each playing source of `s` on by its samples in `n` stays within `usize`.
pub open spec fn advance_fits(s: Seq<(u64, AudioSourceState)>, n: Seq<usize>) -> bool {
    forall|i: int| 0 <= i < s.len() && #[trigger] s[i].1.state == PlaybackState::Playing
        ==> s[i].1.position + n[i] <= usize::MAX
}

/// How many sources of `s` are in state `state`.
pub open spec fn count_in_state(s: Seq<(u64, AudioSourceState)>, state: PlaybackState) -> nat
    decreases s.len(),
{
    if s.len() == 0 {
        0
    } else {
        count_in_state(s.drop_last(), state) + if s.last().1.state == state { 1nat } else { 0nat }
    }
}

impl AudioSystem {
    /// The clips by name.
    pub closed spec fn spec_clips(&self) -> Map<Seq<char>, AudioClip> {
        self.clips.view()
    }

    /// The active sources with their entities, in the order they came.
    pub closed spec fn spec_sources(&self) -> Seq<(u64, AudioSourceState)> {
        self.sources@
    }

    /// Whether the system plays nothing.
    pub closed spec fn spec_muted(&self) -> bool {
        self.muted
    }

    /// Whether the system was set up.
    pub closed spec fn spec_initialized(&self) -> bool {
        self.initialized
    }

    /// The clip map is sound and no entity has two sources.
    pub closed spec fn wf(&self) -> bool {
        &&& self.clips.wf()
        &&& ids_unique(self.sources@)
    }

    /// A set-up, unmuted system with no clips and no sources.
    pub fn new() -> (r: AudioSystem)
        ensures
            r.wf(),
            r.spec_clips() == Map::<Seq<char>, AudioClip>::empty(),
            r.spec_sources() == Seq::<(u64, AudioSourceState)>::empty(),
            r.spec_initialized(),
            !r.spec_muted(),
    {
        AudioSystem { clips: StrMap::new(), sources: Vec::new(), initialized: true, muted: false }
    }

    /// Adds `clip` under its name, replacing a clip of that name.
    pub fn add_clip(&mut self, clip: AudioClip)
        requires
            old(self).wf(),
        ensures
            final(self).wf(),
            final(self).spec_clips() == old(self).spec_clips().insert(clip.name@, clip),
            final(self).spec_sources() == old(self).spec_sources(),
            final(self).spec_muted() == old(self).spec_muted(),
            final(self).spec_initialized() == old(self).spec_initialized(),
    {
        let name = clip.name.clone();
        self.clips.insert(name, clip);
    }

    /// The place of the source of `entity`, if it has one.
    fn find_source(&self, entity: u64) -> (r: Option<usize>)
        ensures
            match r {
                Some(i) => source_ids(self.sources@).index_of_first(entity) == Some(i as int)
                    && i < self.sources@.len(),
                None => source_ids(self.sources@).index_of_first(entity) is None,
            },
    {
        let ghost ids = source_ids(self.sources@);
        let mut i: usize = 0;
        while i < self.sources.len()
            invariant
                i <= self.sources@.len(),
                ids == source_ids(self.sources@),
                forall|j: int| 0 <= j < i ==> ids[j] != entity,
            decreases self.sources@.len() - i,
        {
            if self.sources[i].0 == entity {
                proof {
                    ids.index_of_first_ensures(entity);
                    assert(ids[i as int] == entity);
                    let k = ids.index_of_first(entity)->0;
                    if k < i {
                        assert(ids[k] != entity);
                    }
                    if k > i {
                        assert(ids[i as int] != entity);
                    }
                }
                return Some(i);
            }
            i = i + 1;
        }
        proof {
            ids.index_of_first_ensures(entity);
            if ids.contains(entity) {
                let k = ids.index_of_first(entity)->0;
                assert(ids[k] != entity);
            }
        }
        None
    }

    /// Sets the source of `entity` to `st`, in its place or at the end.
    fn put_source(&mut self, entity: u64, st: AudioSourceState)
        requires
            old(self).wf(),
        ensures
            final(self).wf(),
            final(self).spec_sources() == with_source(old(self).spec_sources(), entity, st),
            final(self).spec_clips() == old(self).spec_clips(),
            final(self).spec_muted() == old(self).spec_muted(),
            final(self).spec_initialized() == old(self).spec_initialized(),
    {
        let ghost s0 = self.sources@;
        proof {
            source_ids(s0).index_of_first_ensures(entity);
        }
        match self.find_source(entity) {
            Some(i) => {
                proof {
                    assert(source_ids(s0)[i as int] == s0[i as int].0);
                    lemma_set_keeps_ids(s0, i as int, st);
                }
                self.sources.set(i, (entity, st));
            },
            None => {
                self.sources.push((entity, st));
                proof {
                    assert forall|a: int, b: int| 0 <= a < b < self.sources@.len()
                        implies #[trigger] self.sources@[a].0 != #[trigger] self.sources@[b].0 by {
                        if b == s0.len() {
                            assert(source_ids(s0)[a] == s0[a].0);
                            assert(!source_ids(s0).contains(entity));
                        } else {
                            assert(s0[a].0 != s0[b].0);
                        }
                    }
                }
            },
        }
    }

    /// Starts `clip_name` on the source of `entity`, from the start; an
    /// asset error if there is no such clip.
    pub fn play_clip(&mut self, clip_name: &str, entity: u64) -> (r: Result<(), EngineError>)
        requires
            old(self).wf(),
        ensures
            final(self).wf(),
            final(self).spec_clips() == old(self).spec_clips(),
            final(self).spec_muted() == old(self).spec_muted(),
            final(self).spec_initialized() == old(self).spec_initialized(),
            old(self).spec_clips().contains_key(clip_name@) ==> {
                &&& r is Ok
                &&& final(self).spec_sources() == with_source(old(self).spec_sources(), entity,
                    fresh_source(old(self).spec_clips()[clip_name@]))
            },
            !old(self).spec_clips().contains_key(clip_name@) ==> {
                &&& r matches Err(EngineError::AssetError(m)) && m@ == "音频剪辑未找到: "@ + clip_name@
                &&& final(self).spec_sources() == old(self).spec_sources()
            },
    {
        let st = match self.clips.get(clip_name) {
            Some(clip) => AudioSourceState {
                clip_len: clip.sample_count,
                clip_rate: clip.sample_rate,
                clip_looping: clip.looping,
                position: 0,
                state: PlaybackState::Playing,
                looping: false,
            },
            None => {
                let mut m = owned("音频剪辑未找到: ");
                m.append(clip_name);
                return Err(EngineError::AssetError(m));
            },
        };
        self.put_source(entity, st);
        Ok(())
    }

    /// Starts `clip_name` once on a source of its own, under an entity
    /// drawn at random; an asset error if there is no such clip.
    pub fn play_one_shot(&mut self, clip_name: &str) -> (r: Result<(), EngineError>)
        requires
            old(self).wf(),
        ensures
            final(self).wf(),
            final(self).spec_clips() == old(self).spec_clips(),
            final(self).spec_muted() == old(self).spec_muted(),
            final(self).spec_initialized() == old(self).spec_initialized(),
            old(self).spec_clips().contains_key(clip_name@) ==> {
                &&& r is Ok
                &&& exists|entity: u64| final(self).spec_sources() == #[trigger] with_source(old(self).spec_sources(), entity,
                    fresh_source(old(self).spec_clips()[clip_name@]))
            },
            !old(self).spec_clips().contains_key(clip_name@) ==> {
                &&& r matches Err(EngineError::AssetError(m)) && m@ == "音频剪辑未找到: "@ + clip_name@
                &&& final(self).spec_sources() == old(self).spec_sources()
            },
    {
        let st = match self.clips.get(clip_name) {
            Some(clip) => AudioSourceState {
                clip_len: clip.sample_count,
                clip_rate: clip.sample_rate,
                clip_looping: clip.looping,
                position: 0,
                state: PlaybackState::Playing,
                looping: false,
            },
            None => {
                let mut m = owned("音频剪辑未找到: ");
                m.append(clip_name);
                return Err(EngineError::AssetError(m));
            },
        };
        let entity = random_entity();
        self.put_source(entity, st);
        Ok(())
    }

    /// Stops the source of `entity`, if it has one, and puts it back at the start.
    pub fn stop(&mut self, entity: u64)
        requires
            old(self).wf(),
        ensures
            final(self).wf(),
            final(self).spec_sources() == changed_source(old(self).spec_sources(), entity, |st| stopped_source(st)),
            final(self).spec_clips() == old(self).spec_clips(),
            final(self).spec_muted() == old(self).spec_muted(),
            final(self).spec_initialized() == old(self).spec_initialized(),
    {
        let ghost s0 = self.sources@;
        proof {
            source_ids(s0).index_of_first_ensures(entity);
        }
        if let Some(i) = self.find_source(entity) {
            let st = self.sources[i].1;
            self.sources.set(i, (entity, AudioSourceState { state: PlaybackState::Stopped, position: 0, ..st }));
            proof { lemma_set_keeps_ids(s0, i as int, self.sources@[i as int].1); }
        }
    }

    /// Pauses the source of `entity`, if it has one.
    pub fn pause(&mut self, entity: u64)
        requires
            old(self).wf(),
        ensures
            final(self).wf(),
            final(self).spec_sources() == changed_source(old(self).spec_sources(), entity, |st| paused_source(st)),
            final(self).spec_clips() == old(self).spec_clips(),
            final(self).spec_muted() == old(self).spec_muted(),
            final(self).spec_initialized() == old(self).spec_initialized(),
    {
        let ghost s0 = self.sources@;
        proof {
            source_ids(s0).index_of_first_ensures(entity);
        }
        if let Some(i) = self.find_source(entity) {
            let st = self.sources[i].1;
            self.sources.set(i, (entity, AudioSourceState { state: PlaybackState::Paused, ..st }));
            proof { lemma_set_keeps_ids(s0, i as int, self.sources@[i as int].1); }
        }
    }

    /// Resumes the source of `entity`, if it has one and it is paused.
    pub fn resume(&mut self, entity: u64)
        requires
            old(self).wf(),
        ensures
            final(self).wf(),
            final(self).spec_sources() == changed_source(old(self).spec_sources(), entity, |st| resumed_source(st)),
            final(self).spec_clips() == old(self).spec_clips(),
            final(self).spec_muted() == old(self).spec_muted(),
            final(self).spec_initialized() == old(self).spec_initialized(),
    {
        let ghost s0 = self.sources@;
        proof {
            source_ids(s0).index_of_first_ensures(entity);
        }
        if let Some(i) = self.find_source(entity) {
            let st = self.sources[i].1;
            let next = match st.state {
                PlaybackState::Paused => AudioSourceState { state: PlaybackState::Playing, ..st },
                _ => st,
            };
            self.sources.set(i, (entity, next));
            proof { lemma_set_keeps_ids(s0, i as int, self.sources@[i as int].1); }
        }
    }

    /// Makes the source of `entity`, if it has one, loop or not.
    pub fn set_looping(&mut self, entity: u64, looping: bool)
        requires
            old(self).wf(),
        ensures
            final(self).wf(),
            final(self).spec_sources() == changed_source(old(self).spec_sources(), entity, |st| looping_source(st, looping)),
            final(self).spec_clips() == old(self).spec_clips(),
            final(self).spec_muted() == old(self).spec_muted(),
            final(self).spec_initialized() == old(self).spec_initialized(),
    {
        let ghost s0 = self.sources@;
        proof {
            source_ids(s0).index_of_first_ensures(entity);
        }
        if let Some(i) = self.find_source(entity) {
            let st = self.sources[i].1;
            self.sources.set(i, (entity, AudioSourceState { looping, ..st }));
            proof { lemma_set_keeps_ids(s0, i as int, self.sources@[i as int].1); }
        }
    }

    /// The sample rate of each active source's clip, in order: a frame
    /// lasts that rate times its length in samples.
    pub fn source_sample_rates(&self) -> (r: Vec<u32>)
        ensures
            r@.len() == self.spec_sources().len(),
            forall|i: int| 0 <= i < r@.len() ==> r@[i] == #[trigger] self.spec_sources()[i].1.clip_rate,
    {
        let mut r: Vec<u32> = Vec::new();
        let mut i: usize = 0;
        while i < self.sources.len()
            invariant
                i <= self.sources@.len(),
                r@.len() == i,
                forall|j: int| 0 <= j < i ==> r@[j] == #[trigger] self.sources@[j].1.clip_rate,
            decreases self.sources@.len() - i,
        {
            r.push(self.sources[i].1.clip_rate);
            i = i + 1;
        }
        r
    }

    /// Whether moving each playing source on by its samples in `samples`
    /// stays within `usize`.
    pub fn update_fits(&self, samples: &Vec<usize>) -> (r: bool)
        requires
            samples@.len() == self.spec_sources().len(),
        ensures
            r == advance_fits(self.spec_sources(), samples@),
    {
        let mut i: usize = 0;
        while i < self.sources.len()
            invariant
                i <= self.sources@.len(),
                samples@.len() == self.sources@.len(),
                forall|j: int| 0 <= j < i && #[trigger] self.sources@[j].1.state == PlaybackState::Playing
                    ==> self.sources@[j].1.position + samples@[j] <= usize::MAX,
            decreases self.sources@.len() - i,
        {
            let st = self.sources[i].1;
            if st.state == PlaybackState::Playing && st.position > usize::MAX - samples[i] {
                return false;
            }
            i = i + 1;
        }
        true
    }

    /// A frame: unless the system is muted or not set up, each playing
    /// source moves on by its samples in `samples` (one entry per source,
    /// in order); one that reaches the end of its clip starts over if it or
    /// its clip loops, and is removed if not.
    pub fn update(&mut self, samples: &Vec<usize>) -> (r: Result<(), EngineError>)
        requires
            old(self).wf(),
            samples@.len() == old(self).spec_sources().len(),
            old(self).spec_initialized() && !old(self).spec_muted() ==> advance_fits(old(self).spec_sources(), samples@),
        ensures
            r is Ok,
            final(self).wf(),
            final(self).spec_sources() == if old(self).spec_initialized() && !old(self).spec_muted() {
                advance_all(old(self).spec_sources(), samples@)
            } else {
                old(self).spec_sources()
            },
            final(self).spec_clips() == old(self).spec_clips(),
            final(self).spec_muted() == old(self).spec_muted(),
            final(self).spec_initialized() == old(self).spec_initialized(),
    {
        if !self.initialized || self.muted {
            return Ok(());
        }
        let ghost s0 = self.sources@;
        let mut kept: Vec<(u64, AudioSourceState)> = Vec::new();
        let mut i: usize = 0;
        while i < self.sources.len()
            invariant
                i <= self.sources@.len(),
                self.sources@ == s0,
                samples@.len() == s0.len(),
                advance_fits(s0, samples@),
                ids_unique(s0),
                kept@ == advance_all(s0.take(i as int), samples@.take(i as int)),
            decreases self.sources@.len() - i,
        {
            let (entity, st) = self.sources[i];
            proof {
                assert(s0.take(i + 1).drop_last() =~= s0.take(i as int));
                assert(samples@.take(i + 1).take(i as int) =~= samples@.take(i as int));
                assert(s0[i as int].1.state == PlaybackState::Playing ==> s0[i as int].1.position + samples@[i as int] <= usize::MAX);
            }
            if st.state == PlaybackState::Playing {
                let p = st.position + samples[i];
                if p >= st.clip_len {
                    if st.looping || st.clip_looping {
                        kept.push((entity, AudioSourceState { position: 0, ..st }));
                    }
                } else {
                    kept.push((entity, AudioSourceState { position: p, ..st }));
                }
            } else {
                kept.push((entity, st));
            }
            i = i + 1;
        }
        proof {
            assert(s0.take(s0.len() as int) =~= s0);
            assert(samples@.take(s0.len() as int) =~= samples@);
            lemma_advance_all_unique(s0, samples@);
        }
        self.sources = kept;
        Ok(())
    }

    /// Mutes the system or lets it play again.
    pub fn set_muted(&mut self, muted: bool)
        requires
            old(self).wf(),
        ensures
            final(self).wf(),
            final(self).spec_muted() == muted,
            final(self).spec_sources() == old(self).spec_sources(),
            final(self).spec_clips() == old(self).spec_clips(),
            final(self).spec_initialized() == old(self).spec_initialized(),
    {
        self.muted = muted;
    }

    /// Whether the system is muted.
    pub fn is_muted(&self) -> (r: bool)
        ensures
            r == self.spec_muted(),
    {
        self.muted
    }

    /// The number of active sources.
    pub fn active_source_count(&self) -> (r: usize)
        ensures
            r == self.spec_sources().len(),
    {
        self.sources.len()
    }

    /// The number of clips.
    pub fn clip_count(&self) -> (r: usize)
        requires
            self.wf(),
        ensures
            r == self.spec_clips().len(),
    {
        self.clips.len()
    }

    /// Whether a clip is named `name`.
    pub fn has_clip(&self, name: &str) -> (r: bool)
        requires
            self.wf(),
        ensures
            r == self.spec_clips().contains_key(name@),
    {
        self.clips.contains_key(name)
    }

    /// Removes the clip named `name`; whether there was one.
    pub fn remove_clip(&mut self, name: &str) -> (r: bool)
        requires
            old(self).wf(),
        ensures
            final(self).wf(),
            r == old(self).spec_clips().contains_key(name@),
            final(self).spec_clips() == old(self).spec_clips().remove(name@),
            final(self).spec_sources() == old(self).spec_sources(),
            final(self).spec_muted() == old(self).spec_muted(),
            final(self).spec_initialized() == old(self).spec_initialized(),
    {
        self.clips.remove(name).is_some()
    }

    /// Removes every clip.
    pub fn clear_clips(&mut self)
        requires
            old(self).wf(),
        ensures
            final(self).wf(),
            final(self).spec_clips() == Map::<Seq<char>, AudioClip>::empty(),
            final(self).spec_sources() == old(self).spec_sources(),
            final(self).spec_muted() == old(self).spec_muted(),
            final(self).spec_initialized() == old(self).spec_initialized(),
    {
        self.clips.clear();
    }

    /// Stops every source and removes them all.
    pub fn stop_all(&mut self)
        requires
            old(self).wf(),
        ensures
            final(self).wf(),
            final(self).spec_sources() == Seq::<(u64, AudioSourceState)>::empty(),
            final(self).spec_clips() == old(self).spec_clips(),
            final(self).spec_muted() == old(self).spec_muted(),
            final(self).spec_initialized() == old(self).spec_initialized(),
    {
        self.sources.clear();
    }

    /// The counts: clips, active sources, how many play and how many are
    /// paused, and whether the system is muted.
    pub fn stats(&self) -> (r: AudioStats)
        requires
            self.wf(),
        ensures
            r.total_clips == self.spec_clips().len(),
            r.active_sources == self.spec_sources().len(),
            r.playing_sources == count_in_state(self.spec_sources(), PlaybackState::Playing),
            r.paused_sources == count_in_state(self.spec_sources(), PlaybackState::Paused),
            r.is_muted == self.spec_muted(),
    {
        let mut playing: usize = 0;
        let mut paused: usize = 0;
        let mut i: usize = 0;
        while i < self.sources.len()
            invariant
                i <= self.sources@.len(),
                playing == count_in_state(self.sources@.take(i as int), PlaybackState::Playing),
                paused == count_in_state(self.sources@.take(i as int), PlaybackState::Paused),
                playing <= i,
                paused <= i,
            decreases self.sources@.len() - i,
        {
            proof {
                assert(self.sources@.take(i + 1).drop_last() =~= self.sources@.take(i as int));
            }
            match self.sources[i].1.state {
                PlaybackState::Playing => { playing = playing + 1; },
                PlaybackState::Paused => { paused = paused + 1; },
                PlaybackState::Stopped => {},
            }
            i = i + 1;
        }
        proof {
            assert(self.sources@.take(self.sources@.len() as int) =~= self.sources@);
        }
        AudioStats {
            total_clips: self.clips.len(),
            active_sources: self.sources.len(),
            playing_sources: playing,
            paused_sources: paused,
            is_muted: self.muted,
        }
    }

}

/// Setting the source at `i` to another of the same entity keeps the entities apart.
proof fn lemma_set_keeps_ids(s0: Seq<(u64, AudioSourceState)>, i: int, st: AudioSourceState)
    requires
        0 <= i < s0.len(),
        ids_unique(s0),
    ensures
        ids_unique(s0.update(i, (s0[i].0, st))),
{
    let s1 = s0.update(i, (s0[i].0, st));
    assert forall|a: int, b: int| 0 <= a < b < s1.len() implies #[trigger] s1[a].0 != #[trigger] s1[b].0 by {
        assert(s1[a].0 == s0[a].0 && s1[b].0 == s0[b].0);
    }
}

impl Default for AudioSystem {
    fn default() -> (r: AudioSystem)
        ensures
            r.wf(),
            r.spec_clips() == Map::<Seq<char>, AudioClip>::empty(),
            r.spec_sources() == Seq::<(u64, AudioSourceState)>::empty(),
            r.spec_initialized(),
            !r.spec_muted(),
    {
        AudioSystem::new()
    }
}

/// Every source left after a frame belongs to an entity that had one, and
/// no entity has two.
proof fn lemma_advance_all_unique(s: Seq<(u64, AudioSourceState)>, n: Seq<usize>)
    requires
        ids_unique(s),
    ensures
        ids_unique(advance_all(s, n)),
        forall|j: int| 0 <= j < advance_all(s, n).len()
            ==> exists|k: int| 0 <= k < s.len() && s[k].0 == #[trigger] advance_all(s, n)[j].0,
    decreases s.len(),
{
    if s.len() > 0 {
        let d = s.drop_last();
        let m = n.take(s.len() - 1);
        assert forall|a: int, b: int| 0 <= a < b < d.len() implies #[trigger] d[a].0 != #[trigger] d[b].0 by {
            assert(d[a] == s[a] && d[b] == s[b]);
        }
        lemma_advance_all_unique(d, m);
        let rest = advance_all(d, m);
        let last = s.last().0;
        assert forall|j: int| 0 <= j < rest.len() implies #[trigger] rest[j].0 != last by {
            let k = choose|k: int| 0 <= k < d.len() && d[k].0 == rest[j].0;
            assert(d[k] == s[k]);
            assert(s[k].0 != s[s.len() - 1].0);
        }
        assert forall|j: int| 0 <= j < rest.len()
            implies exists|k: int| 0 <= k < s.len() && s[k].0 == #[trigger] rest[j].0 by {
            let k = choose|k: int| 0 <= k < d.len() && d[k].0 == rest[j].0;
            assert(d[k] == s[k]);
        }
    }
}

/// Pausing a playing source and resuming it gives back the sources as they were.
pub proof fn lemma_pause_then_resume(s: Seq<(u64, AudioSourceState)>, entity: u64, i: int)
    requires
        ids_unique(s),
        0 <= i < s.len(),
        s[i].0 == entity,
        s[i].1.state == PlaybackState::Playing,
    ensures
        changed_source(changed_source(s, entity, |st| paused_source(st)), entity, |st| resumed_source(st)) == s,
{
    let ids = source_ids(s);
    ids.index_of_first_ensures(entity);
    let k = ids.index_of_first(entity)->0;
    assert(ids[i] == entity);
    if k != i {
        assert(s[k].0 == entity);
    }
    let s1 = changed_source(s, entity, |st| paused_source(st));
    assert(s1 == s.update(i, (entity, paused_source(s[i].1))));
    let ids1 = source_ids(s1);
    assert(ids1 =~= ids);
    let s2 = changed_source(s1, entity, |st| resumed_source(st));
    assert(s2 =~= s);
}

/// An entity drawn at random (`rand::random`).
#[verifier::external_body]
fn random_entity() -> (r: u64)
{
    rand::random::<u64>()
}

} // verus!
