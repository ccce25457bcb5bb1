use sanji_engine::engine_core::debug::{DebugOverlay, DebugStats, Profiler};
use sanji_engine::engine_core::builder::AppBuilder;
use sanji_engine::engine_core::logging::{
    decimal_string, decimal_string_u64, format_message, is_enabled, level_setting, plain_line, LevelSetting, LogConfig,
    RecordLevel,
};
use sanji_engine::text::{char_is_whitespace, remove_all_of, split_whitespace, str_contains};
use sanji_engine::{AssetConfig, EngineConfig, EngineError, RenderConfig, WindowConfig};

#[test]
fn log_config_defaults() {
    let c = LogConfig::default();
    assert_eq!(c.level, "info");
    assert!(c.console_output);
    assert!(!c.file_output);
    assert_eq!(c.file_path, "sanji_engine.log");
    assert!(c.show_timestamp);
    assert!(!c.show_thread_id);
    assert!(!c.show_location);
}

#[test]
fn level_names_map_to_settings() {
    assert!(matches!(level_setting("trace"), LevelSetting::Trace));
    assert!(matches!(level_setting("debug"), LevelSetting::Debug));
    assert!(matches!(level_setting("info"), LevelSetting::Info));
    assert!(matches!(level_setting("warn"), LevelSetting::Warn));
    assert!(matches!(level_setting("error"), LevelSetting::Error));
    assert!(matches!(level_setting("off"), LevelSetting::Off));
    assert!(matches!(level_setting("loud"), LevelSetting::Info));
}

#[test]
fn records_pass_up_to_the_configured_level() {
    let mut c = LogConfig::default();
    c.level = "warn".to_string();
    assert!(is_enabled(&c, RecordLevel::Error));
    assert!(is_enabled(&c, RecordLevel::Warn));
    assert!(!is_enabled(&c, RecordLevel::Info));
    c.level = "off".to_string();
    assert!(!is_enabled(&c, RecordLevel::Error));
    c.level = "trace".to_string();
    assert!(is_enabled(&c, RecordLevel::Trace));
}

#[test]
fn decimal_texts() {
    assert_eq!(decimal_string(0), "0");
    assert_eq!(decimal_string(7), "7");
    assert_eq!(decimal_string(4096), "4096");
    assert_eq!(decimal_string(u32::MAX), "4294967295");
    assert_eq!(decimal_string_u64(u64::MAX), "18446744073709551615");
}

#[test]
fn message_with_every_part() {
    let mut c = LogConfig::default();
    c.show_thread_id = true;
    c.show_location = true;
    let line = format_message(
        &c,
        "2024-01-01 10:00:00.000",
        RecordLevel::Warn,
        "ThreadId(1)",
        Some("engine"),
        "low memory",
        Some(("src/lib.rs", 42)),
    );
    assert_eq!(
        line,
        "[2024-01-01 10:00:00.000] \x1b[33m[WARN]\x1b[0m [ThreadId(1)] engine: low memory (src/lib.rs:42)"
    );
}

#[test]
fn message_with_defaults_drops_thread_and_location() {
    let c = LogConfig::default();
    let line = format_message(&c, "t", RecordLevel::Error, "x", None, "boom", Some(("a.rs", 1)));
    assert_eq!(line, "[t] \x1b[31m[ERROR]\x1b[0m boom");
    let mut quiet = LogConfig::default();
    quiet.show_timestamp = false;
    let line = format_message(&quiet, "t", RecordLevel::Info, "x", None, "hi", None);
    assert_eq!(line, "\x1b[32m[INFO]\x1b[0m hi");
}

#[test]
fn error_messages_carry_their_prefix() {
    assert_eq!(EngineError::RenderError("no adapter".to_string()).message(), "渲染错误: no adapter");
    assert_eq!(EngineError::AssetError("missing".to_string()).message(), "资源加载错误: missing");
    let io = std::io::Error::new(std::io::ErrorKind::NotFound, "gone");
    assert_eq!(EngineError::IoError(io).message(), "IO错误: gone");
    let json = serde_json::from_str::<u32>("x").unwrap_err();
    let m = EngineError::SerializationError(json).message();
    assert!(m.starts_with("序列化错误: "));
    assert!(m.len() > "序列化错误: ".len());
}

#[test]
fn engine_config_defaults() {
    let c = EngineConfig::default();
    assert_eq!(c.window.title, "Sanji Game Engine");
    assert_eq!((c.window.width, c.window.height), (1920, 1080));
    assert!(c.window.vsync && c.window.resizable);
    assert_eq!(c.render.backend, "auto");
    assert_eq!(c.render.msaa_samples, 4);
    assert_eq!(c.render.max_texture_size, 8192);
    assert_eq!(c.assets.asset_folder, "assets");
    assert_eq!(c.assets.cache_size, 536870912);
    assert_eq!(WindowConfig::default().width, 1920);
    assert_eq!(RenderConfig::default().msaa_samples, 4);
    assert_eq!(AssetConfig::default().cache_size, 1024 * 1024 * 512);
}

#[test]
fn whitespace_splitting() {
    assert_eq!(split_whitespace("  v 1.0\t2.0\n 3.0  "), vec!["v", "1.0", "2.0", "3.0"]);
    assert!(split_whitespace("   ").is_empty());
    assert!(split_whitespace("").is_empty());
    assert_eq!(split_whitespace("one"), vec!["one"]);
}

#[test]
fn substring_search() {
    assert!(str_contains("frame_render", "render"));
    assert!(str_contains("abc", ""));
    assert!(!str_contains("abc", "abcd"));
    assert!(!str_contains("physics", "render"));
}

#[test]
fn debug_counters() {
    let mut s = DebugStats::new();
    s.add_draw_call(300);
    s.add_draw_call(4);
    assert_eq!((s.draw_calls, s.vertices_rendered, s.triangles_rendered), (2, 304, 101));
    s.frame_count = 9;
    s.reset_frame_stats();
    assert_eq!((s.draw_calls, s.vertices_rendered, s.triangles_rendered, s.frame_count), (0, 0, 0, 9));
}

#[test]
fn debug_overlay_toggles() {
    let mut o = DebugOverlay::default();
    assert!(o.show_fps && !o.show_stats && !o.show_profiler && !o.show_memory);
    o.toggle_fps();
    o.toggle_stats();
    o.toggle_profiler();
    assert!(!o.show_fps && o.show_stats && o.show_profiler && !o.show_memory);
    o.toggle_stats();
    assert!(!o.show_stats);
}

#[test]
fn sample_window_keeps_the_latest() {
    let mut p: Profiler<u32> = Profiler::new(3);
    assert!(p.samples().is_empty());
    p.record(1);
    p.record(2);
    assert_eq!(p.samples(), vec![1, 2]);
    p.record(3);
    p.record(4);
    assert_eq!(p.samples(), vec![2, 3, 4]);
    p.record(5);
    p.record(6);
    p.record(7);
    assert_eq!(p.samples(), vec![5, 6, 7]);
    assert_eq!(p.sample_count(), 3);
    let mut one: Profiler<f32> = Profiler::new(1);
    one.record(1.5);
    one.record(2.5);
    assert_eq!(one.samples(), vec![2.5]);
}

#[test]
fn app_builder_settings() {
    let b = AppBuilder::new(7u8).with_title("Demo".to_string());
    let c = b.config.as_ref().unwrap();
    assert_eq!(c.window.title, "Demo");
    assert_eq!((c.window.width, c.window.height), (1920, 1080));
    let b = b.with_window_size(800, 600);
    let (app, c) = b.resolved_config(EngineConfig::default());
    assert_eq!(app, 7);
    assert_eq!(c.window.title, "Demo");
    assert_eq!((c.window.width, c.window.height), (800, 600));
    let mut own = EngineConfig::default();
    own.window.title = "Own".to_string();
    let (_, c) = AppBuilder::new(()).resolved_config(own);
    assert_eq!(c.window.title, "Own");
    let mut chosen = EngineConfig::default();
    chosen.render.msaa_samples = 8;
    let (_, c) = AppBuilder::new(()).with_config(chosen).with_window_size(1, 2).resolved_config(EngineConfig::default());
    assert_eq!(c.render.msaa_samples, 8);
    assert_eq!(c.window.width, 1);
}

#[test]
fn removing_patterns() {
    assert_eq!(remove_all_of("aXbXXc", "X"), "abc");
    assert_eq!(remove_all_of("aaa", "aa"), "a");
    assert_eq!(remove_all_of("abc", ""), "abc");
    assert_eq!(remove_all_of("", "x"), "");
    assert_eq!(remove_all_of("abab", "ab"), "");
}

#[test]
fn file_lines_have_no_colors() {
    let c = LogConfig::default();
    let line = format_message(&c, "t", RecordLevel::Error, "x", Some("m"), "boom", None);
    assert_eq!(plain_line(&line), "[t] [ERROR] m: boom");
    assert_eq!(plain_line("\x1b[34m[DEBUG]\x1b[0m x"), "[DEBUG] x");
}

#[test]
fn whitespace_matches_std_for_every_char() {
    for n in 0u32..=0x10FFFF {
        if let Some(c) = char::from_u32(n) {
            assert_eq!(char_is_whitespace(c), c.is_whitespace(), "U+{:04X}", n);
        }
    }
}
