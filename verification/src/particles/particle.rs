//! Particle states and events.
use vstd::prelude::*;

verus! {

/// How a particle's color is blended.
#[derive(Debug, Clone, Copy, PartialEq, Eq, Structural)]
pub enum BlendMode {
    Alpha,
    Additive,
    Multiply,
    Screen,
}

/// Where a particle is in its life.
#[derive(Debug, Clone, Copy, PartialEq, Eq, Structural)]
pub enum ParticleState {
    Birth,
    Alive,
    Dead,
}

/// What happened to a particle. A collision's place and normal are
/// floating point and travel beside the event.
#[derive(Debug, Clone, Copy, PartialEq, Eq, Structural)]
pub enum ParticleEvent {
    Birth { particle_id: u64 },
    Death { particle_id: u64 },
    Collision { particle_id: u64 },
}

} // verus!
