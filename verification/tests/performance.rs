use std::time::Duration;

use sanji_engine::performance::debugger::{
    builtin_output, BuiltinCommand, CommandHandler, CommandOutcome, ConsoleMessage, DebugConsole, FileType,
    HotReloadManager, LogLevel,
};
use sanji_engine::performance::duration_from_nanos;
use sanji_engine::performance::frame_analyzer::FrameAnalyzer;
use sanji_engine::performance::memory_tracker::MemoryTracker;
use sanji_engine::performance::metrics::{Counter, Timer};
use sanji_engine::performance::profiler::Profiler;

fn output(o: CommandOutcome) -> String {
    match o {
        CommandOutcome::Output(s) => s,
        CommandOutcome::Run { .. } => panic!("output expected"),
    }
}

#[test]
fn durations_from_nanoseconds() {
    assert_eq!(duration_from_nanos(1_500_000_000), Duration::new(1, 500_000_000));
    assert_eq!(duration_from_nanos(0), Duration::ZERO);
    assert_eq!(duration_from_nanos(18_446_744_073_709_551_615_999_999_999), Duration::MAX);
}

#[test]
fn counter_counts() {
    let mut c = Counter::new("draws".to_string(), "draw calls".to_string());
    assert_eq!(c.value(), 0);
    c.increment(3);
    c.increment(4);
    assert_eq!(c.value(), 7);
    assert_eq!(c.name(), "draws");
    assert_eq!(c.description(), "draw calls");
    c.add_tag("pass".to_string(), "main".to_string());
    c.reset();
    assert_eq!(c.value(), 0);
}

#[test]
fn timer_statistics() {
    let mut t = Timer::new("frame".to_string(), "".to_string());
    assert_eq!(t.average_duration(), Duration::ZERO);
    assert_eq!(t.min_duration(), Duration::MAX);
    assert_eq!(t.max_duration(), Duration::ZERO);
    t.record_duration(Duration::from_millis(10));
    t.record_duration(Duration::from_millis(20));
    t.record_duration(Duration::from_millis(30));
    assert_eq!(t.count(), 3);
    assert_eq!(t.total_duration(), Duration::from_millis(60));
    assert_eq!(t.average_duration(), Duration::from_millis(20));
    assert_eq!(t.min_duration(), Duration::from_millis(10));
    assert_eq!(t.max_duration(), Duration::from_millis(30));
    t.record_duration(Duration::from_nanos(1));
    assert_eq!(t.average_duration(), Duration::from_nanos(60_000_001) / 4);
    t.start_session("load".to_string(), std::time::Instant::now());
    assert_eq!(t.active_sessions(), 1);
    t.finish_session("load", Duration::from_millis(5));
    assert_eq!(t.active_sessions(), 0);
    assert_eq!(t.count(), 5);
    t.reset();
    assert_eq!(t.count(), 0);
    assert_eq!(t.total_duration(), Duration::ZERO);
}

#[test]
fn memory_tracker_accounts_allocations() {
    let mut m = MemoryTracker::new();
    m.record_allocation(0x1000, 64, "a.rs:1".to_string());
    m.record_allocation(0x2000, 32, "a.rs:2".to_string());
    let s = m.get_stats();
    assert_eq!(s.total_allocated, 96);
    assert_eq!(s.current_allocated, 96);
    assert_eq!(s.peak_allocated, 96);
    assert_eq!(s.allocation_count, 2);
    m.record_deallocation(0x1000);
    m.record_deallocation(0x9999);
    let s = m.get_stats();
    assert_eq!(s.current_allocated, 32);
    assert_eq!(s.peak_allocated, 96);
    assert_eq!(s.deallocation_count, 1);
    assert_eq!(s.total_allocated, 96);
    m.set_enabled(false);
    m.record_allocation(0x3000, 8, "b.rs".to_string());
    assert_eq!(m.get_stats().allocation_count, 2);
    m.set_enabled(true);
    m.tag_allocation(0x2000, "mesh".to_string());
    m.reset();
    assert_eq!(m.get_stats().total_allocated, 0);
    assert!(m.history().is_empty());
}

#[test]
fn alloc_then_free_restores_current_total() {
    let mut m = MemoryTracker::new();
    m.record_allocation(0x10, 100, "x".to_string());
    let before = m.get_stats();
    m.record_allocation(0x20, 50, "y".to_string());
    m.record_deallocation(0x20);
    let after = m.get_stats();
    assert_eq!(after.current_allocated, before.current_allocated);
    assert_eq!(after.allocation_count, before.allocation_count + 1);
    assert_eq!(after.deallocation_count, before.deallocation_count + 1);
}

#[test]
fn memory_heatmap_buckets() {
    let mut m = MemoryTracker::new();
    m.record_allocation(100, 10, "a".to_string());
    m.record_allocation(1030, 20, "b".to_string());
    m.record_allocation(1500, 5, "c".to_string());
    let h = m.get_memory_heatmap(1024);
    assert_eq!(h, vec![(0, 10), (1024, 25)]);
}

#[test]
fn profiler_sections_and_hotspots() {
    let mut p = Profiler::new();
    p.begin_frame();
    p.push_section("update");
    p.push_section("physics");
    p.pop_section("physics", Duration::from_millis(4));
    p.pop_section("update", Duration::from_millis(10));
    p.push_section("render");
    p.pop_section("render", Duration::from_millis(6));
    p.end_frame();
    let hot = p.get_hotspots(2);
    assert_eq!(hot.len(), 2);
    assert_eq!(hot[0].name, "update");
    assert_eq!(hot[0].total_time, Duration::from_millis(10));
    assert_eq!(hot[0].call_count, 1);
    assert_eq!(hot[1].name, "render");
    assert_eq!(p.get_hotspots(10).len(), 3);
    let s = p.get_summary();
    assert_eq!(s.total_sections, 3);
    assert_eq!(s.total_calls, 3);
    assert_eq!(s.total_time, Duration::from_millis(20));
    assert_eq!(s.frames_analyzed, 1);
    let recent = p.get_recent_frame_analysis(5);
    assert_eq!(recent.len(), 1);
    assert_eq!(recent[0].frame_number, 1);
    assert_eq!(recent[0].sections.len(), 3);
    p.reset();
    assert_eq!(p.get_summary().total_sections, 0);
}

#[test]
fn profiler_disabled_keeps_no_frames() {
    let mut p = Profiler::new();
    p.set_enabled(false);
    p.begin_frame();
    p.end_frame();
    assert_eq!(p.get_summary().frames_analyzed, 0);
}

#[test]
fn console_commands() {
    let mut c = DebugConsole::new();
    assert_eq!(output(c.execute_command("   ")), "Empty command");
    assert_eq!(output(c.execute_command("warp 1 2")), "Unknown command: warp");
    assert_eq!(output(c.execute_command("clear")), "Console cleared");
    assert_eq!(output(c.execute_command("fps now")), "Current FPS: 60.0");
    assert!(output(c.execute_command(" help ")).starts_with("Available commands:\n- help: Show this help"));
    c.register_command("spawn", 7);
    match c.execute_command("spawn  enemy  3") {
        CommandOutcome::Run { handler, args } => {
            assert_eq!(handler, 7);
            assert_eq!(args, vec!["enemy", "3"]);
        }
        _ => panic!("run expected"),
    }
    assert_eq!(builtin_output(BuiltinCommand::Clear), "Console cleared");
    let mut h = CommandHandler::new();
    h.register_builtin("c", BuiltinCommand::Clear);
    assert_eq!(output(h.execute("c")), "Console cleared");
}

#[test]
fn console_keeps_the_last_thousand_messages() {
    let mut c = DebugConsole::new();
    for i in 0..1005u128 {
        c.add_message(ConsoleMessage {
            timestamp: i,
            level: LogLevel::Info,
            category: "t".to_string(),
            message: format!("m{}", i),
            source: "s".to_string(),
            stack_trace: None,
        });
    }
    assert_eq!(c.history().len(), 1000);
    assert_eq!(c.history()[0].timestamp, 5);
    assert_eq!(c.history()[999].message, "m1004");
}

#[test]
fn hot_reload_handlers_by_pattern() {
    let mut h = HotReloadManager::new();
    h.register_handler(".wgsl".to_string(), 1);
    assert_eq!(h.handler_for("shaders/pbr.wgsl"), Some(1));
    assert_eq!(h.handler_for("textures/a.png"), None);
    let t0: u128 = 100_000_000_000;
    let t1: u128 = 200_000_000_000;
    h.watch_file("shaders/pbr.wgsl".to_string(), FileType::Shader, t0);
    h.watch_file("textures/a.png".to_string(), FileType::Texture, t0);
    let calls = h.check_and_reload(
        vec!["shaders/pbr.wgsl".to_string(), "textures/a.png".to_string()],
        vec![Some(t1), Some(t1)],
    );
    assert_eq!(calls, vec![(1, "shaders/pbr.wgsl".to_string())]);
    let again = h.check_and_reload(vec!["shaders/pbr.wgsl".to_string()], vec![Some(t1)]);
    assert!(again.is_empty());
    let unread = h.check_and_reload(vec!["shaders/pbr.wgsl".to_string()], vec![None]);
    assert!(unread.is_empty());
    let unwatched = h.check_and_reload(vec!["shaders/new.wgsl".to_string()], vec![Some(t1 + 1)]);
    assert!(unwatched.is_empty());
    let later = h.check_and_reload(
        vec!["shaders/pbr.wgsl".to_string(), "shaders/pbr.wgsl".to_string()],
        vec![Some(t1 + 1), Some(t1 + 2)],
    );
    assert_eq!(later.len(), 2);
}

#[test]
fn zero_sample_interval_samples_every_allocation() {
    let mut m = MemoryTracker::new();
    m.set_sample_interval(Duration::ZERO);
    m.record_allocation(0x10, 100, "x".to_string());
    m.record_allocation(0x20, 50, "y".to_string());
    assert_eq!(m.history().len(), 2);
    assert_eq!(m.history()[1].current_allocated, 150);
}

#[test]
fn timer_try_record_refuses_an_overflowing_total() {
    let mut t = Timer::new("t".to_string(), "d".to_string());
    assert!(t.try_record_duration(Duration::from_millis(5)));
    assert_eq!(t.count(), 1);
    assert!(!t.try_record_duration(Duration::MAX));
    assert_eq!(t.count(), 1);
}

#[test]
fn profiler_try_pop_closes_a_section() {
    let mut p = Profiler::new();
    p.begin_frame();
    p.push_section("update");
    assert!(p.try_pop_section("update", Duration::from_millis(2)));
    assert_eq!(p.get_hotspots(1).len(), 1);
}

#[test]
fn frame_analyzer_keeps_recent_frames_and_counts() {
    let mut a = FrameAnalyzer::new(16_666_666);
    let now = std::time::Instant::now();
    a.set_max_history(3);
    for n in [10_000_000u128, 20_000_000, 30_000_000, 40_000_000] {
        a.record_frame(now, n);
    }
    assert_eq!(a.frame_times(), &vec![20_000_000, 30_000_000, 40_000_000]);
    assert_eq!(a.total_frames(), 4);
    assert_eq!(a.frames_within_budget(), 0);
    a.set_budget(30_000_000);
    assert_eq!(a.frames_within_budget(), 2);
    assert_eq!(a.recent_frame_times(2), vec![30_000_000, 40_000_000]);
    a.begin_frame();
    a.begin_frame();
    assert_eq!(a.dropped_frames(), 1);
    a.end_frame();
    assert_eq!(a.total_frames(), 5);
    assert_eq!(a.frame_times().len(), 3);
    a.end_frame();
    assert_eq!(a.total_frames(), 5);
    a.reset();
    assert!(a.frame_times().is_empty());
    assert_eq!((a.total_frames(), a.dropped_frames()), (0, 0));
}
