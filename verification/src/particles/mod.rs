//! Particle effects: emitter and particle states, blending settings, the
//! statistics of the particle manager, and which preset an effect name
//! stands for. The simulation itself is floating point.
use vstd::prelude::*;
use crate::collections::same_text;

pub mod emitter;
pub mod particle;
pub mod manager;

verus! {

/// What happens to an effect.
#[derive(Debug, Clone, Copy, PartialEq, Eq, Structural)]
pub enum EffectEvent {
    Start,
    Stop,
    Pause,
    Resume,
    Complete,
}

/// The counts of the particle manager.
#[derive(Debug, Clone, Copy, PartialEq, Eq, Structural)]
pub struct ParticleStats {
    pub total_emitters: usize,
    pub active_emitters: usize,
    pub total_particles: usize,
    pub max_particles: usize,
}

/// An entity's particle system: its emitter and how it is run.
#[derive(Debug, Clone, Copy, PartialEq, Eq, Structural)]
pub struct ParticleSystemComponent {
    pub emitter_id: u64,
    pub auto_destroy: bool,
    pub world_space: bool,
}

/// The ready-made emitter settings.
#[derive(Debug, Clone, Copy, PartialEq, Eq, Structural)]
pub enum ParticlePreset {
    Fire,
    Explosion,
    Smoke,
    Healing,
    MagicOrb,
    Snow,
    Rain,
}

/// Ready-made emitter settings; they are floating point.
pub struct ParticlePresets;

/// Ready-made effects made of several emitters; they are floating point.
pub struct EffectPresets;

/// Runs the particle manager each frame.
pub struct ParticleUpdateSystem;

/// Draws the particles.
pub struct ParticleRenderSystem;

/// Makes particle-system entities.
pub struct ParticleSystemFactory;

/// Plays effects by name.
pub struct ParticleSystemHelper;

impl ParticleSystemHelper {
    /// The preset a one-shot effect name stands for: `fire`, `explosion`,
    /// `smoke`, `healing` or `magic_orb`; none for any other name.
    pub fn one_shot_preset(effect_name: &str) -> (r: Option<ParticlePreset>)
        ensures
            r == if effect_name@ == "fire"@ { Some(ParticlePreset::Fire) }
                else if effect_name@ == "explosion"@ { Some(ParticlePreset::Explosion) }
                else if effect_name@ == "smoke"@ { Some(ParticlePreset::Smoke) }
                else if effect_name@ == "healing"@ { Some(ParticlePreset::Healing) }
                else if effect_name@ == "magic_orb"@ { Some(ParticlePreset::MagicOrb) }
                else { None },
    {
        if same_text(effect_name, "fire") {
            Some(ParticlePreset::Fire)
        } else if same_text(effect_name, "explosion") {
            Some(ParticlePreset::Explosion)
        } else if same_text(effect_name, "smoke") {
            Some(ParticlePreset::Smoke)
        } else if same_text(effect_name, "healing") {
            Some(ParticlePreset::Healing)
        } else if same_text(effect_name, "magic_orb") {
            Some(ParticlePreset::MagicOrb)
        } else {
            None
        }
    }

    /// The preset an ambient effect name stands for: `snow`, `rain` or
    /// `fire`; none for any other name.
    pub fn ambient_preset(effect_name: &str) -> (r: Option<ParticlePreset>)
        ensures
            r == if effect_name@ == "snow"@ { Some(ParticlePreset::Snow) }
                else if effect_name@ == "rain"@ { Some(ParticlePreset::Rain) }
                else if effect_name@ == "fire"@ { Some(ParticlePreset::Fire) }
                else { None },
    {
        if same_text(effect_name, "snow") {
            Some(ParticlePreset::Snow)
        } else if same_text(effect_name, "rain") {
            Some(ParticlePreset::Rain)
        } else if same_text(effect_name, "fire") {
            Some(ParticlePreset::Fire)
        } else {
            None
        }
    }
}

impl ParticleSystemFactory {
    /// Whether an entity made by `create_fire_effect` goes away when its
    /// emitter finishes: it does not.
    pub fn fire_auto_destroy() -> (r: bool)
        ensures
            !r,
    {
        false
    }

    /// Whether an entity made by `create_explosion_effect` goes away when
    /// its emitter finishes: it does.
    pub fn explosion_auto_destroy() -> (r: bool)
        ensures
            r,
    {
        true
    }

    /// Whether an entity made by `create_healing_effect` goes away when its
    /// emitter finishes: it does not.
    pub fn healing_auto_destroy() -> (r: bool)
        ensures
            !r,
    {
        false
    }
}

} // verus!
