//! Integer parts of the math helpers: the pseudo-random generator and the
//! Perlin permutation table.
pub mod noise;

use vstd::prelude::*;

verus! {

/// Point-in-shape tests; they are floating point.
pub struct PointIntersection;

/// Line and segment tests; they are floating point.
pub struct LineIntersection;

/// Sphere tests; they are floating point.
pub struct SphereIntersection;

/// Box tests; they are floating point.
pub struct AABBIntersection;

/// Triangle tests; they are floating point.
pub struct TriangleIntersection;

/// Closest-point queries; they are floating point.
pub struct ClosestPoint;

/// Rays through screen points; they are floating point.
pub struct RayFromScreen;

/// Which side of a plane a point lies on.
#[derive(Debug, Clone, Copy, PartialEq, Eq, Structural)]
pub enum PlaneSide {
    Front,
    Back,
    On,
}

/// How a shape lies against a view frustum.
#[derive(Debug, Clone, Copy, PartialEq, Eq, Structural)]
pub enum FrustumIntersection {
    Outside,
    Inside,
    Intersects,
}

} // verus!
