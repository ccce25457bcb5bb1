//! Performance accounting: memory tracking, metrics, the profiler and the
//! debug console.
use std::time::Duration;
use vstd::prelude::*;

pub mod memory_tracker;
pub mod metrics;
pub mod profiler;
pub mod debugger;
pub mod frame_analyzer;

verus! {

/// Nanoseconds in a second.
pub const NANOS_PER_SEC: u128 = 1_000_000_000;

/// The length of `Duration::MAX` in nanoseconds.
pub const DURATION_MAX_NANOS: u128 = 18_446_744_073_709_551_615_999_999_999;

/// The duration of `secs` seconds and `nanos` nanoseconds, as `Duration::new` makes it.
pub uninterp spec fn duration_of(secs: u64, nanos: u32) -> Duration;

/// The duration that stands for `n` nanoseconds.
pub open spec fn duration_from_total(n: u128) -> Duration {
    duration_of((n / NANOS_PER_SEC) as u64, (n % NANOS_PER_SEC) as u32)
}

/// `Duration::new`: the duration of `secs` seconds and `nanos` nanoseconds.
#[verifier::external_body]
pub(crate) fn duration_new(secs: u64, nanos: u32) -> (r: Duration)
    requires
        nanos < 1_000_000_000,
    ensures
        r == duration_of(secs, nanos),
{
    Duration::new(secs, nanos)
}

/// The total length of a duration in nanoseconds, as `Duration::as_nanos` gives it.
pub uninterp spec fn duration_nanos(d: Duration) -> u128;

/// `Duration::as_nanos`: the total length in nanoseconds. A duration is the
/// whole seconds and the remaining nanoseconds of its total, so making a
/// duration back from the total gives the same duration.
#[verifier::external_body]
pub(crate) fn duration_total_nanos(d: Duration) -> (r: u128)
    ensures
        r == duration_nanos(d),
        r <= DURATION_MAX_NANOS,
        duration_from_total(r) == d,
{
    d.as_nanos()
}

/// The total length of `d` in nanoseconds.
pub fn duration_as_nanos(d: Duration) -> (r: u128)
    ensures
        r == duration_nanos(d),
        r <= DURATION_MAX_NANOS,
{
    duration_total_nanos(d)
}

/// The duration of a total number of nanoseconds.
pub fn duration_from_nanos(n: u128) -> (r: Duration)
    requires
        n <= DURATION_MAX_NANOS,
    ensures
        r == duration_from_total(n),
{
    let secs = (n / NANOS_PER_SEC) as u64;
    let nanos = (n % NANOS_PER_SEC) as u32;
    duration_new(secs, nanos)
}

/// Memory statistics as the memory tracker reports them.
#[derive(Debug, Clone, Copy, Default, PartialEq, Eq, Structural)]
pub struct MemoryUsage {
    pub total_allocated: usize,
    pub peak_allocated: usize,
    pub current_allocated: usize,
    pub allocation_count: usize,
    pub deallocation_count: usize,
    pub heap_size: usize,
    pub stack_size: usize,
}

/// Rendering statistics of a frame.
#[derive(Debug)]
pub struct RenderStats {
    pub draw_calls: u32,
    pub triangles: u32,
    pub vertices: u32,
    pub texture_switches: u32,
    pub render_targets_switches: u32,
    pub shader_switches: u32,
    pub gpu_memory_usage: usize,
    pub gpu_time: Duration,
}

/// Physics statistics of a frame.
#[derive(Debug)]
pub struct PhysicsStats {
    pub rigid_bodies: usize,
    pub colliders: usize,
    pub active_bodies: usize,
    pub collision_pairs: usize,
    pub simulation_time: Duration,
    pub broad_phase_time: Duration,
    pub narrow_phase_time: Duration,
    pub solver_time: Duration,
}

impl Default for RenderStats {
    /// All counts zero and no GPU time.
    fn default() -> (r: RenderStats)
        ensures
            r.draw_calls == 0 && r.triangles == 0 && r.vertices == 0,
            r.texture_switches == 0 && r.render_targets_switches == 0,
            r.shader_switches == 0 && r.gpu_memory_usage == 0,
            r.gpu_time == duration_of(0, 0),
    {
        RenderStats {
            draw_calls: 0,
            triangles: 0,
            vertices: 0,
            texture_switches: 0,
            render_targets_switches: 0,
            shader_switches: 0,
            gpu_memory_usage: 0,
            gpu_time: duration_new(0, 0),
        }
    }
}

impl Default for PhysicsStats {
    /// All counts zero and no time spent.
    fn default() -> (r: PhysicsStats)
        ensures
            r.rigid_bodies == 0 && r.colliders == 0,
            r.active_bodies == 0 && r.collision_pairs == 0,
            r.simulation_time == duration_of(0, 0),
            r.broad_phase_time == duration_of(0, 0),
            r.narrow_phase_time == duration_of(0, 0),
            r.solver_time == duration_of(0, 0),
    {
        PhysicsStats {
            rigid_bodies: 0,
            colliders: 0,
            active_bodies: 0,
            collision_pairs: 0,
            simulation_time: duration_new(0, 0),
            broad_phase_time: duration_new(0, 0),
            narrow_phase_time: duration_new(0, 0),
            solver_time: duration_new(0, 0),
        }
    }
}

/// The formats a performance report can be written in.
#[derive(Debug, Clone, Copy, PartialEq, Eq, Structural)]
pub enum ExportFormat {
    Json,
    Csv,
    Html,
}

/// How pressing a performance recommendation is.
#[derive(Debug, Clone, Copy, PartialEq, Eq, Structural)]
pub enum Severity {
    Low,
    Medium,
    High,
}

/// A recommendation in a performance report.
#[derive(Debug, Clone)]
pub struct PerformanceRecommendation {
    pub category: String,
    pub severity: Severity,
    pub title: String,
    pub description: String,
    pub suggestions: Vec<String>,
}

} // verus!
