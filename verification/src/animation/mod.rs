//! Animation settings: what a track animates, how keyframes are blended
//! and what happens past the last keyframe. The curves themselves are
//! floating point.
use vstd::prelude::*;

pub mod skeleton;
pub mod keyframes;

verus! {

/// What an animation track drives.
#[derive(Debug, Clone, Copy, PartialEq, Eq, Structural)]
pub enum AnimationProperty {
    Position,
    Rotation,
    Scale,
    Color,
    Alpha,
}

/// How values between two keyframes are found.
#[derive(Debug, Clone, Copy, PartialEq, Eq, Structural)]
pub enum InterpolationType {
    Linear,
    Step,
    Smooth,
    Bezier,
    Elastic,
}

/// What a curve does before its first and after its last keyframe.
#[derive(Debug, Clone, Copy, PartialEq, Eq, Structural)]
pub enum WrapMode {
    Clamp,
    Loop,
    PingPong,
    Default,
}

/// Ready-made animation curves; they are floating point.
pub struct AnimationPresets;

} // verus!
