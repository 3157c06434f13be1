//! The configuration of a session, and the state that a session starts from.

use crate::bytes::texts;
use crate::debounce::clock_seconds;
use crate::filter::{default_extensions, resolved, FilterView, PathFilter};
use crate::registry::ConnectionRegistry;
use crate::rules::{IgnoreRules, RulesView};
use crate::session::AbortFlag;
use crate::watcher::{Phase, Watcher, WatcherView};
use vstd::prelude::*;

verus! {

/// How the application is rebuilt when a change cannot be hot-reloaded.
#[derive(Debug, Clone, Copy)]
pub enum RebuildStrategy {
    /// Nothing rebuilds it: the session ends and the user rebuilds by hand.
    Manual,
    /// This shell command is spawned, and the session ends.
    Command(&'static str),
    /// A callback of the host is called; it says whether the session ends.
    Callback,
}

/// The configuration of a session.
#[derive(Debug, Clone, Copy)]
pub struct Config {
    pub root_path: &'static str,
    pub listening_paths: &'static [&'static str],
    pub excluded_paths: &'static [&'static str],
    pub log: bool,
    pub rebuild_with: RebuildStrategy,
}

impl Config {
    /// The default configuration: the project root is watched, `./target`
    /// is excluded, logging is on, and no rebuild strategy is set.
    pub fn new() -> (cfg: Self)
        ensures
            cfg.root_path@ == ""@,
            cfg.listening_paths@.len() == 1,
            cfg.listening_paths@[0]@ == ""@,
            cfg.excluded_paths@.len() == 1,
            cfg.excluded_paths@[0]@ == "./target"@,
            cfg.log,
            cfg.rebuild_with is Manual,
    {
        let listening: &'static [&'static str] = &[""];
        let excluded: &'static [&'static str] = &["./target"];
        Config {
            root_path: "",
            listening_paths: listening,
            excluded_paths: excluded,
            log: true,
            rebuild_with: RebuildStrategy::Manual,
        }
    }

    /// Set the root path of the project, where its manifest lies.
    pub fn root(self, path: &'static str) -> (cfg: Self)
        ensures
            cfg == (Config { root_path: path, ..self }),
    {
        Config { root_path: path, ..self }
    }

    /// Set whether to enable logs.
    pub fn with_logging(self, log: bool) -> (cfg: Self)
        ensures
            cfg == (Config { log, ..self }),
    {
        Config { log, ..self }
    }

    /// Set the command to run to rebuild the project. The session ends
    /// once it has been spawned.
    pub fn with_rebuild_command(self, rebuild_command: &'static str) -> (cfg: Self)
        ensures
            cfg == (Config { rebuild_with: RebuildStrategy::Command(rebuild_command), ..self }),
    {
        Config { rebuild_with: RebuildStrategy::Command(rebuild_command), ..self }
    }

    /// Set that a callback of the host rebuilds the project. The host keeps
    /// the callback, and reports what it returned.
    pub fn with_rebuild_callback(self) -> (cfg: Self)
        ensures
            cfg == (Config { rebuild_with: RebuildStrategy::Callback, ..self }),
    {
        Config { rebuild_with: RebuildStrategy::Callback, ..self }
    }

    /// Set the paths to listen for changes in. A directory is watched
    /// with everything below it.
    pub fn with_paths(self, paths: &'static [&'static str]) -> (cfg: Self)
        ensures
            cfg == (Config { listening_paths: paths, ..self }),
    {
        Config { listening_paths: paths, ..self }
    }

    /// Set the paths to ignore changes on. Where they overlap with the
    /// paths listened to, they win.
    pub fn excluded_paths(self, paths: &'static [&'static str]) -> (cfg: Self)
        ensures
            cfg == (Config { excluded_paths: paths, ..self }),
    {
        Config { excluded_paths: paths, ..self }
    }

    /// Whether a rebuild strategy is set.
    pub fn has_strategy(&self) -> (r: bool)
        ensures
            r == !(self.rebuild_with is Manual),
    {
        match self.rebuild_with {
            RebuildStrategy::Manual => false,
            _ => true,
        }
    }
}

impl Default for Config {
    fn default() -> (cfg: Self)
        ensures
            cfg.root_path@ == ""@,
            cfg.listening_paths@.len() == 1,
            cfg.listening_paths@[0]@ == ""@,
            cfg.excluded_paths@.len() == 1,
            cfg.excluded_paths@[0]@ == "./target"@,
            cfg.log,
            cfg.rebuild_with is Manual,
    {
        Config::new()
    }
}

/// What a session consists of: the watcher, the registry of connections,
/// and the stop signal. Each is meant to be kept behind a lock of its own.
pub struct Coordinator {
    pub watcher: Watcher,
    pub registry: ConnectionRegistry,
    pub abort: AbortFlag,
}

/// The filter that a configuration asks for, given the lines of the
/// project's ignore file.
pub open spec fn filter_of(cfg: Config, ignore_lines: Seq<Seq<char>>) -> FilterView {
    FilterView {
        watched: resolved(cfg.root_path@, cfg.listening_paths@),
        excluded: resolved(cfg.root_path@, cfg.excluded_paths@),
        extensions: default_extensions(),
        rules: RulesView { root: cfg.root_path@, lines: ignore_lines },
    }
}

/// The state of a session that starts at `now`.
pub open spec fn started(cfg: Config, ignore_lines: Seq<Seq<char>>, now: int) -> WatcherView {
    WatcherView {
        filter: filter_of(cfg, ignore_lines),
        has_strategy: !(cfg.rebuild_with is Manual),
        phase: Phase::Idle,
        last_action: now,
        queue: Seq::empty(),
        pending: Seq::empty(),
        terminate: false,
    }
}

/// Sets up a session that starts at `now`: nobody is connected, the stop
/// signal is lowered, and the watcher is between batches.
pub fn init_at(cfg: Config, ignore_lines: Vec<String>, now: i64) -> (c: Coordinator)
    ensures
        c.watcher@ == started(cfg, texts(ignore_lines@), now as int),
        c.registry@.conns.len() == 0,
        c.registry@.delivered == Map::<u64, Seq<Seq<u8>>>::empty(),
        !c.abort@,
{
    let rules = IgnoreRules::new(cfg.root_path.to_owned(), ignore_lines);
    let filter = PathFilter::new(cfg.root_path, cfg.listening_paths, cfg.excluded_paths, rules);
    Coordinator {
        watcher: Watcher::new(filter, cfg.has_strategy(), now),
        registry: ConnectionRegistry::new(),
        abort: AbortFlag::new(),
    }
}

/// Initialize the hot reloading session at the present second. The state
/// is that of `init_at` for the second that the clock gave.
pub fn init(cfg: Config, ignore_lines: Vec<String>) -> (c: Coordinator)
    ensures
        exists|now: i64| c.watcher@ == #[trigger] started(cfg, texts(ignore_lines@), now as int),
        c.registry@.conns.len() == 0,
        c.registry@.delivered == Map::<u64, Seq<Seq<u8>>>::empty(),
        !c.abort@,
{
    let now = clock_seconds();
    init_at(cfg, ignore_lines, now)
}

} // verus!
