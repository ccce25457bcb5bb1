//! The debug console and its commands, hot reloading, and the data the
//! debug views show. Command handlers and reload handlers are the caller's
//! code, known here by number; the console decides what runs.
use std::time::Duration;
use vstd::prelude::*;
use vstd::string::StringExecFns;
use crate::collections::{owned, str_views, StrMap};
use crate::text::{occurs_in, split_whitespace, str_contains, words};

verus! {

/// How a graph line is drawn.
#[derive(Debug, Clone, Copy, PartialEq, Eq, Structural)]
pub enum LineType {
    Solid,
    Dashed,
    Dotted,
}

/// Where a panel is anchored.
#[derive(Debug, Clone, Copy, PartialEq, Eq, Structural)]
pub enum AnchorPoint {
    TopLeft,
    TopRight,
    BottomLeft,
    BottomRight,
    Center,
}

/// Where a dock area lies.
#[derive(Debug, Clone, Copy, PartialEq, Eq, Structural)]
pub enum DockPosition {
    Left,
    Right,
    Top,
    Bottom,
}

/// The kinds of memory region.
#[derive(Debug, Clone, Copy, PartialEq, Eq, Structural)]
pub enum MemoryRegionType {
    Allocated,
    Free,
    Reserved,
    System,
}

/// The kinds of frame-graph node.
#[derive(Debug, Clone, Copy, PartialEq, Eq, Structural)]
pub enum NodeType {
    RenderPass,
    ComputePass,
    Resource,
    Barrier,
    Present,
}

/// The kinds of frame-graph edge.
#[derive(Debug, Clone, Copy, PartialEq, Eq, Structural)]
pub enum EdgeType {
    DataDependency,
    ExecutionOrder,
    ResourceAccess,
}

/// How a graph is laid out.
#[derive(Debug, Clone, Copy, PartialEq, Eq, Structural)]
pub enum LayoutAlgorithm {
    Hierarchical,
    Force,
    Circular,
    Manual,
}

/// The kinds of watched file.
#[derive(Debug, Clone, Copy, PartialEq, Eq, Structural)]
pub enum FileType {
    Shader,
    Texture,
    Model,
    Script,
    Config,
    Scene,
}

/// The severity of a console message.
#[derive(Debug, Clone, Copy, PartialEq, Eq, Structural)]
pub enum LogLevel {
    Trace,
    Debug,
    Info,
    Warn,
    Error,
    Fatal,
}

/// A table to show.
pub struct TableData {
    pub headers: Vec<String>,
    pub rows: Vec<Vec<String>>,
    pub sortable: bool,
    pub filterable: bool,
}

impl Default for TableData {
    /// No headers or rows; sortable and filterable.
    fn default() -> (r: TableData)
        ensures
            r.headers@.len() == 0,
            r.rows@.len() == 0,
            r.sortable,
            r.filterable,
    {
        TableData { headers: Vec::new(), rows: Vec::new(), sortable: true, filterable: true }
    }
}

/// A node of a tree to show.
pub struct TreeNode {
    pub id: String,
    pub label: String,
    pub children: Vec<TreeNode>,
    pub expanded: bool,
    pub data: StrMap<String>,
}

/// A tree to show.
pub struct TreeData {
    pub nodes: Vec<TreeNode>,
}

/// An event on the profiler's timeline.
pub struct TimelineEvent {
    pub name: String,
    pub start_time: Duration,
    pub duration: Duration,
    pub category: String,
    pub color: String,
    pub level: u32,
}

/// A region of the memory map.
pub struct MemoryRegion {
    pub start_address: usize,
    pub size: usize,
    pub region_type: MemoryRegionType,
    pub name: String,
    pub color: String,
}

/// An edge of the frame graph.
pub struct FrameGraphEdge {
    pub from: String,
    pub to: String,
    pub edge_type: EdgeType,
    pub label: Option<String>,
    pub color: String,
}

/// A message of the console.
pub struct ConsoleMessage {
    pub timestamp: u128,
    pub level: LogLevel,
    pub category: String,
    pub message: String,
    pub source: String,
    pub stack_trace: Option<String>,
}

/// A filter of console messages.
pub struct LogFilter {
    pub level: Option<LogLevel>,
    pub category: Option<String>,
    pub text_filter: Option<String>,
    pub enabled: bool,
}

/// What a command line asks for.
pub enum CommandOutcome {
    /// The answer to give.
    Output(String),
    /// Run the caller's handler `handler` with the arguments.
    Run { handler: u64, args: Vec<String> },
}

/// The commands the console itself answers.
#[derive(Debug, Clone, Copy, PartialEq, Eq, Structural)]
pub enum BuiltinCommand {
    Help,
    Clear,
    Fps,
}

/// What a command name stands for: one of the console's own commands, or a
/// handler of the caller's.
#[derive(Debug, Clone, Copy, PartialEq, Eq, Structural)]
pub enum CommandEntry {
    Builtin(BuiltinCommand),
    Handler(u64),
}

/// The answer of a builtin command.
pub fn builtin_output(c: BuiltinCommand) -> (r: String)
    ensures
        r@ == builtin_text(c),
{
    match c {
        BuiltinCommand::Help => owned("Available commands:\n- help: Show this help\n- clear: Clear console\n- fps: Show current FPS\n- memory: Show memory usage\n- gc: Force garbage collection\n- reload: Reload resources"),
        BuiltinCommand::Clear => owned("Console cleared"),
        BuiltinCommand::Fps => owned("Current FPS: 60.0"),
    }
}

/// The text a builtin command answers.
pub open spec fn builtin_text(c: BuiltinCommand) -> Seq<char> {
    match c {
        BuiltinCommand::Help => "Available commands:\n- help: Show this help\n- clear: Clear console\n- fps: Show current FPS\n- memory: Show memory usage\n- gc: Force garbage collection\n- reload: Reload resources"@,
        BuiltinCommand::Clear => "Console cleared"@,
        BuiltinCommand::Fps => "Current FPS: 60.0"@,
    }
}

/// The commands by name.
pub struct CommandHandler {
    commands: StrMap<CommandEntry>,
}

/// What the command line `line` gives with the commands `m`: nothing to run
/// for a blank line, the entry of the first word with the other words as
/// arguments, or an unknown-command answer.
pub open spec fn command_result(m: Map<Seq<char>, CommandEntry>, line: Seq<char>, r: CommandOutcome) -> bool {
    let ws = words(line);
    if ws.len() == 0 {
        r matches CommandOutcome::Output(s) && s@ == "Empty command"@
    } else if !m.contains_key(ws[0]) {
        r matches CommandOutcome::Output(s) && s@ == "Unknown command: "@ + ws[0]
    } else {
        match m[ws[0]] {
            CommandEntry::Builtin(b) => r matches CommandOutcome::Output(s) && s@ == builtin_text(b),
            CommandEntry::Handler(h) => r matches CommandOutcome::Run { handler, args }
                && handler == h && str_views(args@) == ws.drop_first(),
        }
    }
}

/// After `name` is registered for the handler `h`, a command line whose first
/// word is `name` runs `h` with the line's other words as its arguments,
/// whatever was registered under that name before.
pub proof fn lemma_registered_command_runs(
    m: Map<Seq<char>, CommandEntry>,
    name: Seq<char>,
    h: u64,
    line: Seq<char>,
    r: CommandOutcome,
)
    requires
        words(line).len() > 0,
        words(line)[0] == name,
        command_result(m.insert(name, CommandEntry::Handler(h)), line, r),
    ensures
        r matches CommandOutcome::Run { handler, args } && handler == h
            && str_views(args@) == words(line).drop_first(),
{
}

impl CommandHandler {
    /// The commands by name.
    pub closed spec fn commands(&self) -> Map<Seq<char>, CommandEntry> {
        self.commands.view()
    }

    /// The storage is consistent.
    pub closed spec fn wf(&self) -> bool {
        self.commands.wf()
    }

    /// No commands.
    pub fn new() -> (r: CommandHandler)
        ensures
            r.wf(),
            r.commands() == Map::<Seq<char>, CommandEntry>::empty(),
    {
        CommandHandler { commands: StrMap::new() }
    }

    /// Binds the command `name` to the caller's handler `handler`.
    pub fn register(&mut self, name: &str, handler: u64)
        requires
            old(self).wf(),
        ensures
            final(self).wf(),
            final(self).commands() == old(self).commands().insert(name@, CommandEntry::Handler(handler)),
    {
        self.commands.insert(owned(name), CommandEntry::Handler(handler));
    }

    /// Binds the command `name` to one of the console's own commands.
    pub fn register_builtin(&mut self, name: &str, command: BuiltinCommand)
        requires
            old(self).wf(),
        ensures
            final(self).wf(),
            final(self).commands() == old(self).commands().insert(name@, CommandEntry::Builtin(command)),
    {
        self.commands.insert(owned(name), CommandEntry::Builtin(command));
    }

    /// Reads a command line: the first word names the command, the others are its arguments.
    pub fn execute(&self, command_line: &str) -> (r: CommandOutcome)
        requires
            self.wf(),
        ensures
            command_result(self.commands(), command_line@, r),
    {
        let parts = split_whitespace(command_line);
        proof {
            assert(str_views(parts@).len() == parts@.len());
        }
        if parts.len() == 0 {
            return CommandOutcome::Output(owned("Empty command"));
        }
        let ghost ws = words(command_line@);
        proof {
            assert(parts@[0]@ == ws[0]);
        }
        match self.commands.get(parts[0].as_str()) {
            Some(entry) => match *entry {
                CommandEntry::Builtin(b) => CommandOutcome::Output(builtin_output(b)),
                CommandEntry::Handler(h) => {
                    let mut args: Vec<String> = Vec::new();
                    let mut i: usize = 1;
                    while i < parts.len()
                        invariant
                            1 <= i <= parts@.len(),
                            str_views(parts@) == ws,
                            str_views(args@) == ws.subrange(1, i as int),
                        decreases parts@.len() - i,
                    {
                        let w = parts[i].clone();
                        proof {
                            assert(str_views(parts@)[i as int] == parts@[i as int]@);
                            assert(w@ == ws[i as int]);
                        }
                        let ghost a0 = args@;
                        let ghost i0 = i as int;
                        proof {
                            assert(str_views(a0).len() == a0.len());
                            assert(a0.len() == i0 - 1);
                        }
                        args.push(w);
                        i = i + 1;
                        proof {
                            assert(args@ == a0.push(w));
                            assert forall|j: int| 0 <= j < args@.len() implies
                                #[trigger] str_views(args@)[j] == ws.subrange(1, i as int)[j] by {
                                if j < a0.len() {
                                    assert(str_views(a0)[j] == ws.subrange(1, i0)[j]);
                                    assert(args@[j] == a0[j]);
                                } else {
                                    assert(args@[j] == w);
                                    assert(ws.subrange(1, i as int)[j] == ws[i0]);
                                }
                            }
                            assert(str_views(args@) =~= ws.subrange(1, i as int));
                        }
                    }
                    proof {
                        assert(ws.subrange(1, ws.len() as int) =~= ws.drop_first());
                    }
                    CommandOutcome::Run { handler: h, args }
                },
            },
            None => {
                let mut s = owned("Unknown command: ");
                s.append(parts[0].as_str());
                CommandOutcome::Output(s)
            },
        }
    }
}

/// The number of messages the console keeps.
pub const MAX_CONSOLE_HISTORY: usize = 1000;

/// The debug console: its messages, its commands and its input.
pub struct DebugConsole {
    visible: bool,
    history: Vec<ConsoleMessage>,
    max_history: usize,
    input_buffer: String,
    command_handler: CommandHandler,
    filters: Vec<LogFilter>,
}

impl DebugConsole {
    /// The messages kept, oldest first.
    pub closed spec fn messages(&self) -> Seq<ConsoleMessage> {
        self.history@
    }

    /// The commands.
    pub closed spec fn commands(&self) -> Map<Seq<char>, CommandEntry> {
        self.command_handler.commands()
    }

    /// The storage is consistent and at most a thousand messages are kept.
    pub closed spec fn wf(&self) -> bool {
        &&& self.command_handler.wf()
        &&& self.max_history == MAX_CONSOLE_HISTORY
        &&& self.history@.len() <= MAX_CONSOLE_HISTORY
    }

    /// A console with no messages and the commands `help`, `clear` and `fps`.
    pub fn new() -> (r: DebugConsole)
        ensures
            r.wf(),
            r.messages() == Seq::<ConsoleMessage>::empty(),
            r.commands() == Map::<Seq<char>, CommandEntry>::empty()
                .insert("help"@, CommandEntry::Builtin(BuiltinCommand::Help))
                .insert("clear"@, CommandEntry::Builtin(BuiltinCommand::Clear))
                .insert("fps"@, CommandEntry::Builtin(BuiltinCommand::Fps)),
    {
        let mut console = DebugConsole {
            visible: false,
            history: Vec::new(),
            max_history: MAX_CONSOLE_HISTORY,
            input_buffer: String::new(),
            command_handler: CommandHandler::new(),
            filters: Vec::new(),
        };
        console.register_default_commands();
        console
    }

    /// Adds `help`, `clear` and `fps`.
    pub fn register_default_commands(&mut self)
        requires
            old(self).wf(),
        ensures
            final(self).wf(),
            final(self).messages() == old(self).messages(),
            final(self).commands() == old(self).commands()
                .insert("help"@, CommandEntry::Builtin(BuiltinCommand::Help))
                .insert("clear"@, CommandEntry::Builtin(BuiltinCommand::Clear))
                .insert("fps"@, CommandEntry::Builtin(BuiltinCommand::Fps)),
    {
        self.command_handler.register_builtin("help", BuiltinCommand::Help);
        self.command_handler.register_builtin("clear", BuiltinCommand::Clear);
        self.command_handler.register_builtin("fps", BuiltinCommand::Fps);
    }

    /// A console never holds more than a thousand messages.
    pub proof fn lemma_history_bounded(&self)
        requires
            self.wf(),
        ensures
            self.messages().len() <= MAX_CONSOLE_HISTORY,
    {
    }

    /// Appends a message, dropping the oldest beyond a thousand.
    pub fn add_message(&mut self, message: ConsoleMessage)
        requires
            old(self).wf(),
        ensures
            final(self).wf(),
            final(self).commands() == old(self).commands(),
            final(self).messages() == if old(self).messages().len() + 1 > MAX_CONSOLE_HISTORY {
                old(self).messages().push(message).drop_first()
            } else {
                old(self).messages().push(message)
            },
            final(self).messages().len() <= MAX_CONSOLE_HISTORY,
    {
        self.history.push(message);
        if self.history.len() > self.max_history {
            self.history.remove(0);
            proof {
                assert(self.history@ =~= old(self).history@.push(message).drop_first());
            }
        }
    }

    /// Reads a command line with the console's commands.
    pub fn execute_command(&mut self, command: &str) -> (r: CommandOutcome)
        requires
            old(self).wf(),
        ensures
            final(self).wf(),
            final(self).commands() == old(self).commands(),
            final(self).messages() == old(self).messages(),
            command_result(old(self).commands(), command@, r),
    {
        self.command_handler.execute(command)
    }

    /// Binds the command `name` to the caller's handler `handler`.
    pub fn register_command(&mut self, name: &str, handler: u64)
        requires
            old(self).wf(),
        ensures
            final(self).wf(),
            final(self).messages() == old(self).messages(),
            final(self).commands() == old(self).commands().insert(name@, CommandEntry::Handler(handler)),
    {
        self.command_handler.register(name, handler);
    }

    /// The messages kept, oldest first.
    pub fn history(&self) -> (r: &Vec<ConsoleMessage>)
        ensures
            r@ == self.messages(),
    {
        &self.history
    }
}

/// A file watched for changes, with the time it was last modified in
/// nanoseconds since the Unix epoch.
pub struct FileWatcher {
    pub path: String,
    pub last_modified: u128,
    pub file_type: FileType,
}

/// Whether some pattern of `handlers` occurs in `path` and leads to the handler `h`.
pub open spec fn handled_by(handlers: Map<Seq<char>, u64>, path: Seq<char>, h: u64) -> bool {
    exists|p: Seq<char>| #[trigger] handlers.contains_key(p) && occurs_in(p, path) && handlers[p] == h
}

/// Hot reloading: watched files and the caller's reload handlers by path pattern.
pub struct HotReloadManager {
    enabled: bool,
    watched_files: StrMap<FileWatcher>,
    reload_handlers: StrMap<u64>,
}

impl HotReloadManager {
    /// The watched files by path.
    pub closed spec fn watched(&self) -> Map<Seq<char>, FileWatcher> {
        self.watched_files.view()
    }

    /// The reload handlers by path pattern.
    pub closed spec fn handlers(&self) -> Map<Seq<char>, u64> {
        self.reload_handlers.view()
    }

    /// Whether reloading is on.
    pub closed spec fn is_enabled(&self) -> bool {
        self.enabled
    }

    /// The storage is consistent.
    pub closed spec fn wf(&self) -> bool {
        self.watched_files.wf() && self.reload_handlers.wf()
    }

    /// Reloading on, nothing watched, no handlers.
    pub fn new() -> (r: HotReloadManager)
        ensures
            r.wf(),
            r.is_enabled(),
            r.watched() == Map::<Seq<char>, FileWatcher>::empty(),
            r.handlers() == Map::<Seq<char>, u64>::empty(),
    {
        HotReloadManager { enabled: true, watched_files: StrMap::new(), reload_handlers: StrMap::new() }
    }

    /// Files whose path holds `pattern` are handed to the caller's handler `handler`.
    pub fn register_handler(&mut self, pattern: String, handler: u64)
        requires
            old(self).wf(),
        ensures
            final(self).wf(),
            final(self).handlers() == old(self).handlers().insert(pattern@, handler),
            final(self).watched() == old(self).watched(),
            final(self).is_enabled() == old(self).is_enabled(),
    {
        self.reload_handlers.insert(pattern, handler);
    }

    /// Watches the file `path`, last modified `last_modified` nanoseconds
    /// after the Unix epoch.
    pub fn watch_file(&mut self, path: String, file_type: FileType, last_modified: u128)
        requires
            old(self).wf(),
        ensures
            final(self).wf(),
            final(self).watched().dom() == old(self).watched().dom().insert(path@),
            final(self).watched()[path@].path@ == path@,
            final(self).watched()[path@].file_type == file_type,
            final(self).watched()[path@].last_modified == last_modified,
            forall|p: Seq<char>| p != path@ && #[trigger] old(self).watched().contains_key(p)
                ==> final(self).watched()[p] == old(self).watched()[p],
            final(self).handlers() == old(self).handlers(),
    {
        let watcher = FileWatcher { path: path.clone(), last_modified, file_type };
        self.watched_files.insert(path, watcher);
    }

    /// The handler for the file `path`: one whose pattern occurs in the path.
    pub fn handler_for(&self, path: &str) -> (r: Option<u64>)
        requires
            self.wf(),
        ensures
            r matches Some(h) ==> handled_by(self.handlers(), path@, h),
            r is None ==> forall|p: Seq<char>| #[trigger] self.handlers().contains_key(p) ==> !occurs_in(p, path@),
    {
        proof {
            self.reload_handlers.lemma_keys();
        }
        let n = self.reload_handlers.len();
        let mut i: usize = 0;
        while i < n
            invariant
                self.wf(),
                n == self.reload_handlers.key_seq().len(),
                i <= n,
                forall|j: int| 0 <= j < i ==> !occurs_in(#[trigger] self.reload_handlers.key_seq()[j], path@),
            decreases n - i,
        {
            let pattern = self.reload_handlers.key_at(i);
            if str_contains(path, pattern.as_str()) {
                let h = *self.reload_handlers.value_at(i);
                return Some(h);
            }
            i = i + 1;
        }
        proof {
            assert forall|p: Seq<char>| #[trigger] self.handlers().contains_key(p) implies !occurs_in(p, path@) by {
                assert(self.reload_handlers.key_seq().contains(p));
                let j = choose|j: int| 0 <= j < n && self.reload_handlers.key_seq()[j] == p;
            }
        }
        None
    }

    /// Compares each watched file with its modification time now
    /// (`modified[i]`, in nanoseconds since the Unix epoch, for the file
    /// `paths[i]`; none if it could not be read): a watched file modified
    /// later than recorded gets the new time, and is handed to its handler
    /// if one matches. Returns the calls to make, in order: the handler and
    /// the file. Nothing happens while reloading is off.
    pub fn check_and_reload(&mut self, paths: Vec<String>, modified: Vec<Option<u128>>) -> (r: Vec<(u64, String)>)
        requires
            old(self).wf(),
            paths@.len() == modified@.len(),
        ensures
            final(self).wf(),
            final(self).handlers() == old(self).handlers(),
            final(self).is_enabled() == old(self).is_enabled(),
            !old(self).is_enabled() ==> r@.len() == 0 && final(self).watched() == old(self).watched(),
            old(self).is_enabled() ==> {
                let scan = reload_scan(old(self).watched(), str_views(paths@), modified@);
                &&& final(self).watched() == scan.0
                &&& call_paths(r@) == handled_paths(old(self).handlers(), scan.1)
            },
            forall|i: int| 0 <= i < r@.len() ==> #[trigger] handled_by(final(self).handlers(), r@[i].1@, r@[i].0),
    {
        let mut calls: Vec<(u64, String)> = Vec::new();
        if !self.enabled {
            return calls;
        }
        let ghost w0 = self.watched_files.view();
        let ghost ps = str_views(paths@);
        let mut i: usize = 0;
        while i < paths.len()
            invariant
                self.wf(),
                self.enabled,
                paths@.len() == modified@.len(),
                ps == str_views(paths@),
                i <= paths@.len(),
                self.reload_handlers.view() == old(self).reload_handlers.view(),
                self.watched_files.view() == reload_scan(w0, ps.take(i as int), modified@.take(i as int)).0,
                call_paths(calls@) == handled_paths(self.reload_handlers.view(),
                    reload_scan(w0, ps.take(i as int), modified@.take(i as int)).1),
                forall|j: int| 0 <= j < calls@.len() ==> #[trigger] handled_by(self.reload_handlers.view(), calls@[j].1@, calls@[j].0),
            decreases paths@.len() - i,
        {
            let path = paths[i].as_str();
            let ghost w1 = self.watched_files.view();
            let ghost c1 = reload_scan(w0, ps.take(i as int), modified@.take(i as int)).1;
            proof {
                assert(ps.take(i + 1).drop_last() =~= ps.take(i as int));
                assert(modified@.take(i + 1).take(i as int) =~= modified@.take(i as int));
                assert(ps.take(i + 1).last() == path@);
            }
            let mut changed = false;
            match &modified[i] {
                Some(m) => {
                    if let Some(mut w) = self.watched_files.remove(path) {
                        if *m > w.last_modified {
                            w.last_modified = *m;
                            changed = true;
                        }
                        let ghost wv = w;
                        self.watched_files.insert(owned(path), w);
                        proof {
                            if !changed {
                                assert(self.watched_files.view() =~= w1);
                            } else {
                                assert(self.watched_files.view() =~= w1.insert(path@,
                                    FileWatcher { last_modified: *m, ..w1[path@] }));
                            }
                        }
                    }
                },
                None => {},
            }
            let ghost c2 = reload_scan(w0, ps.take(i + 1), modified@.take(i + 1)).1;
            proof {
                if changed {
                    assert(c2 == c1.push(path@));
                    assert(c1.push(path@).drop_last() =~= c1);
                    assert(c1.push(path@).last() == path@);
                } else {
                    assert(c2 == c1);
                }
            }
            if changed {
                match self.handler_for(path) {
                    Some(h) => {
                        let ghost before = calls@;
                        calls.push((h, owned(path)));
                        proof {
                            assert(call_paths(calls@) =~= call_paths(before).push(path@));
                            let q = choose|q: Seq<char>| #[trigger] self.handlers().contains_key(q)
                                && occurs_in(q, path@) && self.handlers()[q] == h;
                            assert(self.reload_handlers.view().contains_key(q) && occurs_in(q, path@));
                            assert(has_handler(self.reload_handlers.view(), path@));
                        }
                    },
                    None => {
                        proof {
                            if has_handler(self.reload_handlers.view(), path@) {
                                let q = choose|q: Seq<char>| #[trigger] self.reload_handlers.view().contains_key(q)
                                    && occurs_in(q, path@);
                                assert(self.handlers().contains_key(q));
                            }
                        }
                    },
                }
            }
            i = i + 1;
        }
        proof {
            assert(ps.take(paths@.len() as int) =~= ps);
            assert(modified@.take(paths@.len() as int) =~= modified@);
        }
        calls
    }
}

/// The files of `paths` found modified, in order, and the watched files
/// after the scan: a watched path whose time now (`modified`, when it could
/// be read) is later than the recorded one gets the new time and is listed.
pub open spec fn reload_scan(w: Map<Seq<char>, FileWatcher>, paths: Seq<Seq<char>>, modified: Seq<Option<u128>>)
    -> (Map<Seq<char>, FileWatcher>, Seq<Seq<char>>)
    decreases paths.len(),
{
    if paths.len() == 0 {
        (w, Seq::empty())
    } else {
        let (w1, changed) = reload_scan(w, paths.drop_last(), modified.take(paths.len() - 1));
        let p = paths.last();
        match modified[paths.len() - 1] {
            Some(t) => if w1.contains_key(p) && t > w1[p].last_modified {
                (w1.insert(p, FileWatcher { last_modified: t, ..w1[p] }), changed.push(p))
            } else {
                (w1, changed)
            },
            None => (w1, changed),
        }
    }
}

/// Whether some pattern of `handlers` occurs in `path`.
pub open spec fn has_handler(handlers: Map<Seq<char>, u64>, path: Seq<char>) -> bool {
    exists|p: Seq<char>| #[trigger] handlers.contains_key(p) && occurs_in(p, path)
}

/// The paths of `ps` that some handler takes, in order.
pub open spec fn handled_paths(handlers: Map<Seq<char>, u64>, ps: Seq<Seq<char>>) -> Seq<Seq<char>>
    decreases ps.len(),
{
    if ps.len() == 0 {
        Seq::empty()
    } else {
        let before = handled_paths(handlers, ps.drop_last());
        if has_handler(handlers, ps.last()) { before.push(ps.last()) } else { before }
    }
}

/// The files of a list of calls, in order.
pub open spec fn call_paths(calls: Seq<(u64, String)>) -> Seq<Seq<char>> {
    calls.map_values(|c: (u64, String)| c.1@)
}

} // verus!
