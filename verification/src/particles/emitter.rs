//! Emitter settings and the emitter's play state.
use vstd::prelude::*;

verus! {

/// How particles are blended with what is behind them.
#[derive(Debug, Clone, Copy, PartialEq, Eq, Structural)]
pub enum BlendMode {
    Alpha,
    Additive,
    Multiply,
    Screen,
}

/// Where particles move.
#[derive(Debug, Clone, Copy, PartialEq, Eq, Structural)]
pub enum SimulationSpace {
    Local,
    World,
}

/// Whether an emitter emits.
#[derive(Debug, Clone, Copy, PartialEq, Eq, Structural)]
pub enum EmitterState {
    Stopped,
    Playing,
    Paused,
}

impl EmitterState {
    /// After `start`: playing.
    pub fn started(self) -> (r: EmitterState)
        ensures
            r == EmitterState::Playing,
    {
        EmitterState::Playing
    }

    /// After `stop`: stopped.
    pub fn stopped(self) -> (r: EmitterState)
        ensures
            r == EmitterState::Stopped,
    {
        EmitterState::Stopped
    }

    /// After `pause`: a playing emitter pauses; any other keeps its state.
    pub fn paused(self) -> (r: EmitterState)
        ensures
            r == if self == EmitterState::Playing { EmitterState::Paused } else { self },
    {
        match self {
            EmitterState::Playing => EmitterState::Paused,
            _ => self,
        }
    }

    /// After `resume`: a paused emitter plays; any other keeps its state.
    pub fn resumed(self) -> (r: EmitterState)
        ensures
            r == if self == EmitterState::Paused { EmitterState::Playing } else { self },
    {
        match self {
            EmitterState::Paused => EmitterState::Playing,
            _ => self,
        }
    }

    /// Whether the emitter is active: it plays.
    pub fn is_active(self) -> (r: bool)
        ensures
            r == (self == EmitterState::Playing),
    {
        match self {
            EmitterState::Playing => true,
            _ => false,
        }
    }
}

/// Pausing and resuming an emitter brings it back to where it was, unless
/// it was paused already; resuming never stops a playing emitter.
pub proof fn lemma_pause_resume(s: EmitterState)
    ensures
        s != EmitterState::Paused ==> resumed_spec(paused_spec(s)) == s,
        s == EmitterState::Playing ==> resumed_spec(s) == s,
{
}

/// The state after `pause`.
pub open spec fn paused_spec(s: EmitterState) -> EmitterState {
    if s == EmitterState::Playing { EmitterState::Paused } else { s }
}

/// The state after `resume`.
pub open spec fn resumed_spec(s: EmitterState) -> EmitterState {
    if s == EmitterState::Paused { EmitterState::Playing } else { s }
}

} // verus!
