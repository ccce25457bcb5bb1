//! The logging rules: which records pass the configured level, and how a
//! record's line is laid out. Writing the lines is left to the logger.
use vstd::prelude::*;
use vstd::string::StringExecFns;
use crate::collections::{owned, same_text};
use crate::text::{remove_all, remove_all_of};

verus! {

/// The logging settings.
#[derive(Debug, Clone)]
pub struct LogConfig {
    pub level: String,
    pub console_output: bool,
    pub file_output: bool,
    pub file_path: String,
    pub show_timestamp: bool,
    pub show_thread_id: bool,
    pub show_location: bool,
}

impl Default for LogConfig {
    /// Level `info` to the console, no file (`sanji_engine.log` if turned
    /// on), timestamps shown, thread ids and locations not.
    fn default() -> (r: LogConfig)
        ensures
            r.level@ == "info"@,
            r.console_output && !r.file_output,
            r.file_path@ == "sanji_engine.log"@,
            r.show_timestamp && !r.show_thread_id && !r.show_location,
    {
        LogConfig {
            level: owned("info"),
            console_output: true,
            file_output: false,
            file_path: owned("sanji_engine.log"),
            show_timestamp: true,
            show_thread_id: false,
            show_location: false,
        }
    }
}

/// The severity of a record, most severe first.
#[derive(Debug, Clone, Copy, PartialEq, Eq, Structural)]
pub enum RecordLevel {
    Error,
    Warn,
    Info,
    Debug,
    Trace,
}

/// The most verbose level let through.
#[derive(Debug, Clone, Copy, PartialEq, Eq, Structural)]
pub enum LevelSetting {
    Off,
    Error,
    Warn,
    Info,
    Debug,
    Trace,
}

/// The rank of a record level: 1 for errors up to 5 for traces.
pub open spec fn record_rank(l: RecordLevel) -> int {
    match l {
        RecordLevel::Error => 1,
        RecordLevel::Warn => 2,
        RecordLevel::Info => 3,
        RecordLevel::Debug => 4,
        RecordLevel::Trace => 5,
    }
}

/// The rank of a setting: 0 for off up to 5 for traces.
pub open spec fn setting_rank(s: LevelSetting) -> int {
    match s {
        LevelSetting::Off => 0,
        LevelSetting::Error => 1,
        LevelSetting::Warn => 2,
        LevelSetting::Info => 3,
        LevelSetting::Debug => 4,
        LevelSetting::Trace => 5,
    }
}

/// The setting a level name stands for; an unknown name means `info`.
pub open spec fn setting_of_name(name: Seq<char>) -> LevelSetting {
    if name == "trace"@ {
        LevelSetting::Trace
    } else if name == "debug"@ {
        LevelSetting::Debug
    } else if name == "info"@ {
        LevelSetting::Info
    } else if name == "warn"@ {
        LevelSetting::Warn
    } else if name == "error"@ {
        LevelSetting::Error
    } else if name == "off"@ {
        LevelSetting::Off
    } else {
        LevelSetting::Info
    }
}

/// The setting the level name `name` stands for.
pub fn level_setting(name: &str) -> (r: LevelSetting)
    ensures
        r == setting_of_name(name@),
{
    if same_text(name, "trace") {
        LevelSetting::Trace
    } else if same_text(name, "debug") {
        LevelSetting::Debug
    } else if same_text(name, "info") {
        LevelSetting::Info
    } else if same_text(name, "warn") {
        LevelSetting::Warn
    } else if same_text(name, "error") {
        LevelSetting::Error
    } else if same_text(name, "off") {
        LevelSetting::Off
    } else {
        LevelSetting::Info
    }
}

/// Whether a record of `level` passes the configuration: it is at most as
/// verbose as the configured level.
pub fn is_enabled(config: &LogConfig, level: RecordLevel) -> (r: bool)
    ensures
        r == (record_rank(level) <= setting_rank(setting_of_name(config.level@))),
{
    let setting = level_setting(config.level.as_str());
    let rank: u8 = match level {
        RecordLevel::Error => 1,
        RecordLevel::Warn => 2,
        RecordLevel::Info => 3,
        RecordLevel::Debug => 4,
        RecordLevel::Trace => 5,
    };
    let limit: u8 = match setting {
        LevelSetting::Off => 0,
        LevelSetting::Error => 1,
        LevelSetting::Warn => 2,
        LevelSetting::Info => 3,
        LevelSetting::Debug => 4,
        LevelSetting::Trace => 5,
    };
    rank <= limit
}

/// The name a record level is shown with.
pub open spec fn level_name(l: RecordLevel) -> Seq<char> {
    match l {
        RecordLevel::Error => "ERROR"@,
        RecordLevel::Warn => "WARN"@,
        RecordLevel::Info => "INFO"@,
        RecordLevel::Debug => "DEBUG"@,
        RecordLevel::Trace => "TRACE"@,
    }
}

/// The terminal color a record level is shown in.
pub open spec fn level_color(l: RecordLevel) -> Seq<char> {
    match l {
        RecordLevel::Error => "\x1b[31m"@,
        RecordLevel::Warn => "\x1b[33m"@,
        RecordLevel::Info => "\x1b[32m"@,
        RecordLevel::Debug => "\x1b[34m"@,
        RecordLevel::Trace => "\x1b[37m"@,
    }
}

/// The decimal digits of `n`.
pub open spec fn decimal(n: nat) -> Seq<char>
    decreases n,
{
    if n < 10 {
        seq![digit_char(n)]
    } else {
        decimal(n / 10).push(digit_char(n % 10))
    }
}

/// The digit for `d` below ten.
pub open spec fn digit_char(d: nat) -> char {
    if d == 0 { '0' } else if d == 1 { '1' } else if d == 2 { '2' } else if d == 3 { '3' }
    else if d == 4 { '4' } else if d == 5 { '5' } else if d == 6 { '6' } else if d == 7 { '7' }
    else if d == 8 { '8' } else { '9' }
}

fn digit_string(d: u32) -> (r: &'static str)
    requires
        d < 10,
    ensures
        r@ == seq![digit_char(d as nat)],
{
    let r = if d == 0 { "0" } else if d == 1 { "1" } else if d == 2 { "2" } else if d == 3 { "3" }
        else if d == 4 { "4" } else if d == 5 { "5" } else if d == 6 { "6" } else if d == 7 { "7" }
        else if d == 8 { "8" } else { "9" };
    proof {
        reveal_strlit("0"); reveal_strlit("1"); reveal_strlit("2"); reveal_strlit("3");
        reveal_strlit("4"); reveal_strlit("5"); reveal_strlit("6"); reveal_strlit("7");
        reveal_strlit("8"); reveal_strlit("9");
    }
    r
}

/// The decimal text of `n`.
pub fn decimal_string(n: u32) -> (r: String)
    ensures
        r@ == decimal(n as nat),
{
    decimal_string_u64(n as u64)
}

/// The decimal text of `n`.
pub fn decimal_string_u64(n: u64) -> (r: String)
    ensures
        r@ == decimal(n as nat),
    decreases n,
{
    if n < 10 {
        owned(digit_string(n as u32))
    } else {
        let mut r = decimal_string_u64(n / 10);
        r.append(digit_string((n % 10) as u32));
        r
    }
}

/// The timestamp part of a line.
pub open spec fn timestamp_part(config: LogConfig, timestamp: Seq<char>) -> Seq<char> {
    if config.show_timestamp { "["@ + timestamp + "] "@ } else { Seq::empty() }
}

/// The level part of a line: the level's name in brackets, in its color.
pub open spec fn level_part(level: RecordLevel) -> Seq<char> {
    level_color(level) + "["@ + level_name(level) + "]\x1b[0m "@
}

/// The thread part of a line.
pub open spec fn thread_part(config: LogConfig, thread_id: Seq<char>) -> Seq<char> {
    if config.show_thread_id { "["@ + thread_id + "] "@ } else { Seq::empty() }
}

/// The module part of a line.
pub open spec fn module_part(module: Option<Seq<char>>) -> Seq<char> {
    match module {
        Some(m) => m + ": "@,
        None => Seq::empty(),
    }
}

/// The location part of a line.
pub open spec fn location_part(config: LogConfig, location: Option<(Seq<char>, u32)>) -> Seq<char> {
    match location {
        Some((f, l)) => if config.show_location { " ("@ + f + ":"@ + decimal(l as nat) + ")"@ } else { Seq::empty() },
        None => Seq::empty(),
    }
}

fn push_all(r: &mut String, parts: &[&str])
    ensures
        final(r)@ == old(r)@ + concat_all(parts@),
{
    let mut i: usize = 0;
    while i < parts.len()
        invariant
            i <= parts@.len(),
            r@ == old(r)@ + concat_all(parts@.take(i as int)),
        decreases parts@.len() - i,
    {
        let ghost before = r@;
        r.append(parts[i]);
        proof {
            assert(parts@.take(i + 1).drop_last() =~= parts@.take(i as int));
            assert(r@ =~= old(r)@ + concat_all(parts@.take(i + 1)));
        }
        i = i + 1;
    }
    proof {
        assert(parts@.take(parts@.len() as int) =~= parts@);
    }
}

/// The strings of `parts` one after another.
pub open spec fn concat_all(parts: Seq<&str>) -> Seq<char>
    decreases parts.len(),
{
    if parts.len() == 0 { Seq::empty() } else { concat_all(parts.drop_last()) + parts.last()@ }
}

/// The line of a record, laid out as the configuration asks: the timestamp
/// in brackets, the level in its color, the thread id in brackets, the
/// module and a colon, the message, and the file and line in parentheses,
/// each part only where it is shown and known.
pub fn format_message(
    config: &LogConfig,
    timestamp: &str,
    level: RecordLevel,
    thread_id: &str,
    module: Option<&str>,
    message: &str,
    location: Option<(&str, u32)>,
) -> (r: String)
    ensures
        r@ == timestamp_part(*config, timestamp@) + level_part(level) + thread_part(*config, thread_id@)
            + module_part(match module { Some(m) => Some(m@), None => None }) + message@
            + location_part(*config, match location { Some((f, l)) => Some((f@, l)), None => None }),
{
    let mut r = String::new();
    if config.show_timestamp {
        push_all(&mut r, &["[", timestamp, "] "]);
        proof { reveal_with_fuel(concat_all, 4); }
    }
    let ghost r1 = r@;
    let (color, name) = match level {
        RecordLevel::Error => ("\x1b[31m", "ERROR"),
        RecordLevel::Warn => ("\x1b[33m", "WARN"),
        RecordLevel::Info => ("\x1b[32m", "INFO"),
        RecordLevel::Debug => ("\x1b[34m", "DEBUG"),
        RecordLevel::Trace => ("\x1b[37m", "TRACE"),
    };
    push_all(&mut r, &[color, "[", name, "]\x1b[0m "]);
    proof {
        reveal_with_fuel(concat_all, 5);
        assert(r@ =~= r1 + level_part(level));
    }
    let ghost r2 = r@;
    if config.show_thread_id {
        push_all(&mut r, &["[", thread_id, "] "]);
        proof { reveal_with_fuel(concat_all, 4); }
    }
    let ghost r3 = r@;
    match module {
        Some(m) => {
            push_all(&mut r, &[m, ": "]);
            proof { reveal_with_fuel(concat_all, 3); }
        },
        None => {},
    }
    let ghost r4 = r@;
    r.append(message);
    let ghost r5 = r@;
    if config.show_location {
        match location {
            Some((f, l)) => {
                let digits = decimal_string(l);
                push_all(&mut r, &[" (", f, ":", digits.as_str(), ")"]);
                proof { reveal_with_fuel(concat_all, 6); }
            },
            None => {},
        }
    }
    proof {
        assert(r1 =~= timestamp_part(*config, timestamp@));
        assert(r3 =~= r2 + thread_part(*config, thread_id@));
        assert(r4 =~= r3 + module_part(match module { Some(m) => Some(m@), None => None }));
        assert(r@ =~= r5 + location_part(*config, match location { Some((f, l)) => Some((f@, l)), None => None }));
    }
    r
}

/// A line as it goes to the log file: the terminal color codes of the five
/// levels and the reset code taken out, in that order.
pub open spec fn plain_text(line: Seq<char>) -> Seq<char> {
    remove_all(remove_all(remove_all(remove_all(remove_all(remove_all(line,
        "\x1b[31m"@), "\x1b[33m"@), "\x1b[32m"@), "\x1b[34m"@), "\x1b[37m"@), "\x1b[0m"@)
}

/// The line `line` without its terminal color codes, for the log file.
pub fn plain_line(line: &str) -> (r: String)
    ensures
        r@ == plain_text(line@),
{
    let a = remove_all_of(line, "\x1b[31m");
    let b = remove_all_of(a.as_str(), "\x1b[33m");
    let c = remove_all_of(b.as_str(), "\x1b[32m");
    let d = remove_all_of(c.as_str(), "\x1b[34m");
    let e = remove_all_of(d.as_str(), "\x1b[37m");
    remove_all_of(e.as_str(), "\x1b[0m")
}

} // verus!
