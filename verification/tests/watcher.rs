use hot_reload::config::{init_at, Config, Coordinator};
use hot_reload::session::{after_poll, AbortFlag, ListenerAction};
use hot_reload::watcher::{holds_templates, DiffOutcome, Phase, WatcherAction, WatcherEvent};
use hot_reload::wire::{HotReloadMsg, Template};

fn session(cfg: Config) -> Coordinator {
    init_at(cfg, vec!["*.tmp.rs".to_string()], 100)
}

fn changed(paths: &[&str]) -> WatcherEvent {
    WatcherEvent::Changed(paths.iter().map(|p| p.to_string()).collect())
}

fn template(payload: &str) -> Template {
    Template::new(payload.as_bytes().to_vec())
}

fn update(payload: &str) -> WatcherAction {
    WatcherAction::Broadcast(HotReloadMsg::UpdateTemplate(template(payload)))
}

fn diff(path: &str) -> WatcherAction {
    WatcherAction::Diff(path.to_string())
}

#[test]
fn only_rust_sources_hold_templates() {
    assert!(holds_templates("/proj/src/app.rs"));
    assert!(holds_templates("app.rs"));
    assert!(!holds_templates("/proj/Cargo.toml"));
    assert!(!holds_templates("/proj/assets/main.css"));
    assert!(!holds_templates("/proj/src/rs"));
    assert!(!holds_templates("/proj/src/app.rss"));
}

#[test]
fn a_watcher_starts_between_batches() {
    let c = session(Config::new().root("/proj"));
    assert_eq!(c.watcher.phase(), Phase::Idle);
    assert_eq!(c.watcher.awaited(), WatcherAction::Wait);
    assert!(!c.abort.is_raised());
    assert!(c.registry.is_empty());
    assert!(c.watcher.filter().accepts("/proj/src/app.rs"));
}

#[test]
fn a_batch_is_settled_then_routed_path_by_path() {
    let mut c = session(Config::new().root("/proj"));
    let w = &mut c.watcher;
    let a = &mut c.abort;
    assert_eq!(
        w.step(101, changed(&["/proj/src/a.rs", "/proj/notes.md", "/proj/src/b.rs"]), a),
        WatcherAction::Settle
    );
    assert_eq!(w.phase(), Phase::Settling);
    assert_eq!(w.step(101, WatcherEvent::Settled, a), diff("/proj/src/a.rs"));
    let found = DiffOutcome::UpdatedTemplates(vec![template("1"), template("2")]);
    assert_eq!(w.step(101, WatcherEvent::Diffed(found), a), update("1"));
    assert_eq!(w.phase(), Phase::Sending);
    assert_eq!(w.step(101, WatcherEvent::Delivered, a), update("2"));
    assert_eq!(w.step(101, WatcherEvent::Delivered, a), diff("/proj/src/b.rs"));
    assert_eq!(w.step(102, WatcherEvent::Diffed(DiffOutcome::Unchanged), a), WatcherAction::Wait);
    assert_eq!(w.phase(), Phase::Idle);
    assert!(!a.is_raised());
}

#[test]
fn an_update_without_templates_changes_nothing() {
    let mut c = session(Config::new().root("/proj"));
    let w = &mut c.watcher;
    let a = &mut c.abort;
    w.step(101, changed(&["/proj/src/a.rs", "/proj/src/b.rs"]), a);
    w.step(101, WatcherEvent::Settled, a);
    let found = DiffOutcome::UpdatedTemplates(Vec::new());
    assert_eq!(w.step(101, WatcherEvent::Diffed(found), a), diff("/proj/src/b.rs"));
}

#[test]
fn the_gate_opens_only_after_the_second_of_the_last_batch() {
    let mut c = session(Config::new().root("/proj"));
    let w = &mut c.watcher;
    let a = &mut c.abort;
    assert_eq!(w.step(100, changed(&["/proj/src/a.rs"]), a), WatcherAction::Wait);
    assert_eq!(w.step(99, changed(&["/proj/src/a.rs"]), a), WatcherAction::Wait);
    assert_eq!(w.step(i64::MIN, changed(&["/proj/src/a.rs"]), a), WatcherAction::Wait);
    assert_eq!(w.step(101, changed(&["/proj/src/a.rs"]), a), WatcherAction::Settle);
}

#[test]
fn a_batch_without_relevant_paths_still_closes_the_gate_for_its_second() {
    let mut c = session(Config::new().root("/proj"));
    let w = &mut c.watcher;
    let a = &mut c.abort;
    assert_eq!(w.step(105, changed(&["/proj/notes.md"]), a), WatcherAction::Wait);
    assert_eq!(w.step(105, changed(&["/proj/src/a.rs"]), a), WatcherAction::Wait);
    assert_eq!(w.step(105, changed(&[]), a), WatcherAction::Wait);
    assert_eq!(w.step(106, changed(&["/proj/src/a.rs"]), a), WatcherAction::Settle);
}

#[test]
fn the_gate_is_set_when_the_batch_ends() {
    let mut c = session(Config::new().root("/proj"));
    let w = &mut c.watcher;
    let a = &mut c.abort;
    w.step(101, changed(&["/proj/src/a.rs"]), a);
    w.step(102, WatcherEvent::Settled, a);
    assert_eq!(w.step(104, WatcherEvent::Diffed(DiffOutcome::Unchanged), a), WatcherAction::Wait);
    assert_eq!(w.step(104, changed(&["/proj/src/a.rs"]), a), WatcherAction::Wait);
    assert_eq!(w.step(105, changed(&["/proj/src/a.rs"]), a), WatcherAction::Settle);
}

#[test]
fn an_event_that_was_not_asked_for_changes_nothing() {
    let mut c = session(Config::new().root("/proj"));
    let w = &mut c.watcher;
    let a = &mut c.abort;
    assert_eq!(w.step(101, WatcherEvent::Settled, a), WatcherAction::Wait);
    assert_eq!(w.step(101, WatcherEvent::Delivered, a), WatcherAction::Wait);
    assert_eq!(w.step(101, WatcherEvent::Rebuilt(true), a), WatcherAction::Wait);
    assert_eq!(w.step(101, WatcherEvent::Diffed(DiffOutcome::NeedsRebuild), a), WatcherAction::Wait);
    assert_eq!(w.step(101, changed(&["/proj/src/a.rs"]), a), WatcherAction::Settle);
    assert_eq!(w.step(200, changed(&["/proj/src/b.rs"]), a), WatcherAction::Settle);
    assert_eq!(w.step(200, WatcherEvent::Delivered, a), WatcherAction::Settle);
    assert_eq!(w.step(200, WatcherEvent::Settled, a), diff("/proj/src/a.rs"));
    assert_eq!(w.step(200, WatcherEvent::Settled, a), diff("/proj/src/a.rs"));
    assert_eq!(w.step(200, WatcherEvent::Rebuilt(true), a), diff("/proj/src/a.rs"));
}

#[test]
fn a_file_without_templates_takes_the_rebuild_path_and_abandons_the_rest() {
    let mut c = session(Config::new().root("/proj").with_rebuild_callback());
    let w = &mut c.watcher;
    let a = &mut c.abort;
    w.step(101, changed(&["/proj/src/a.rs", "/proj/Cargo.toml", "/proj/src/b.rs"]), a);
    assert_eq!(w.step(101, WatcherEvent::Settled, a), diff("/proj/src/a.rs"));
    assert_eq!(w.step(101, WatcherEvent::Diffed(DiffOutcome::Unchanged), a), WatcherAction::Rebuild);
    assert_eq!(w.phase(), Phase::Rebuilding);
    assert_eq!(
        w.step(101, WatcherEvent::Rebuilt(false), a),
        WatcherAction::Broadcast(HotReloadMsg::Shutdown)
    );
    assert_eq!(w.phase(), Phase::Closing);
    assert_eq!(w.step(103, WatcherEvent::Delivered, a), WatcherAction::Wait);
    assert_eq!(w.phase(), Phase::Idle);
    assert!(!a.is_raised());
    assert_eq!(w.step(103, changed(&["/proj/src/b.rs"]), a), WatcherAction::Wait);
    assert_eq!(w.step(104, changed(&["/proj/src/b.rs"]), a), WatcherAction::Settle);
}

#[test]
fn a_first_path_without_templates_rebuilds_before_any_diff() {
    let mut c = session(Config::new().root("/proj").with_rebuild_command("cargo run"));
    let w = &mut c.watcher;
    let a = &mut c.abort;
    w.step(101, changed(&["/proj/assets/main.css", "/proj/src/a.rs"]), a);
    assert_eq!(w.step(101, WatcherEvent::Settled, a), WatcherAction::Rebuild);
}

#[test]
fn a_needed_rebuild_abandons_the_rest_of_the_batch() {
    let mut c = session(Config::new().root("/proj").with_rebuild_callback());
    let w = &mut c.watcher;
    let a = &mut c.abort;
    w.step(101, changed(&["/proj/src/a.rs", "/proj/src/b.rs"]), a);
    w.step(101, WatcherEvent::Settled, a);
    assert_eq!(w.step(101, WatcherEvent::Diffed(DiffOutcome::NeedsRebuild), a), WatcherAction::Rebuild);
    assert_eq!(
        w.step(101, WatcherEvent::Rebuilt(false), a),
        WatcherAction::Broadcast(HotReloadMsg::Shutdown)
    );
    assert_eq!(w.step(101, WatcherEvent::Delivered, a), WatcherAction::Wait);
}

#[test]
fn templates_sent_before_the_rebuild_are_not_taken_back() {
    let mut c = session(Config::new().root("/proj").with_rebuild_callback());
    let w = &mut c.watcher;
    let a = &mut c.abort;
    w.step(101, changed(&["/proj/src/a.rs", "/proj/Cargo.toml"]), a);
    w.step(101, WatcherEvent::Settled, a);
    let found = DiffOutcome::UpdatedTemplates(vec![template("1")]);
    assert_eq!(w.step(101, WatcherEvent::Diffed(found), a), update("1"));
    assert_eq!(w.step(101, WatcherEvent::Delivered, a), WatcherAction::Rebuild);
}

#[test]
fn a_strategy_that_says_terminate_ends_the_session() {
    let mut c = session(Config::new().root("/proj").with_rebuild_callback());
    let w = &mut c.watcher;
    let a = &mut c.abort;
    w.step(101, changed(&["/proj/Cargo.toml"]), a);
    assert_eq!(w.step(101, WatcherEvent::Settled, a), WatcherAction::Rebuild);
    assert_eq!(
        w.step(101, WatcherEvent::Rebuilt(true), a),
        WatcherAction::Broadcast(HotReloadMsg::Shutdown)
    );
    assert!(!a.is_raised());
    assert_eq!(after_poll(a), ListenerAction::Poll);
    assert_eq!(
        w.step(150, changed(&["/proj/src/a.rs"]), a),
        WatcherAction::Broadcast(HotReloadMsg::Shutdown)
    );
    assert_eq!(w.step(150, WatcherEvent::Delivered, a), WatcherAction::Stop);
    assert_eq!(w.phase(), Phase::Stopped);
    assert!(a.is_raised());
    assert_eq!(after_poll(a), ListenerAction::Stop);
    assert_eq!(w.step(200, changed(&["/proj/src/a.rs"]), a), WatcherAction::Stop);
    assert_eq!(w.step(200, WatcherEvent::Settled, a), WatcherAction::Stop);
    assert_eq!(w.step(200, WatcherEvent::Diffed(DiffOutcome::Unchanged), a), WatcherAction::Stop);
    assert_eq!(w.step(200, WatcherEvent::Delivered, a), WatcherAction::Stop);
    assert_eq!(w.step(200, WatcherEvent::Rebuilt(false), a), WatcherAction::Stop);
    assert_eq!(w.awaited(), WatcherAction::Stop);
    assert!(a.is_raised());
}

#[test]
fn without_a_strategy_a_rebuild_ends_the_session() {
    let mut c = session(Config::new().root("/proj"));
    let w = &mut c.watcher;
    let a = &mut c.abort;
    w.step(101, changed(&["/proj/Cargo.toml"]), a);
    assert_eq!(w.step(101, WatcherEvent::Settled, a), WatcherAction::Rebuild);
    assert_eq!(
        w.step(101, WatcherEvent::Rebuilt(false), a),
        WatcherAction::Broadcast(HotReloadMsg::Shutdown)
    );
    assert_eq!(w.step(101, WatcherEvent::Delivered, a), WatcherAction::Stop);
    assert!(a.is_raised());
}

#[test]
fn a_raised_flag_stops_the_watcher_at_the_next_batch() {
    let mut c = session(Config::new().root("/proj"));
    let w = &mut c.watcher;
    let mut raised = AbortFlag::new();
    raised.raise();
    raised.raise();
    assert!(raised.is_raised());
    assert_eq!(w.step(50, changed(&[]), &mut raised), WatcherAction::Stop);
    assert_eq!(w.phase(), Phase::Stopped);
}

#[test]
fn handle_reads_the_clock_itself() {
    let mut c = session(Config::new().root("/proj"));
    let w = &mut c.watcher;
    let a = &mut c.abort;
    assert_eq!(w.handle(changed(&["/proj/src/a.rs"]), a), WatcherAction::Settle);
    assert_eq!(w.handle(WatcherEvent::Settled, a), diff("/proj/src/a.rs"));
    assert_eq!(w.handle(WatcherEvent::Diffed(DiffOutcome::Unchanged), a), WatcherAction::Wait);
    assert_eq!(w.step(100, changed(&["/proj/src/a.rs"]), a), WatcherAction::Wait);
}

#[test]
fn the_ignore_rules_of_the_session_hold_back_a_path() {
    let mut c = session(Config::new().root("/proj"));
    let w = &mut c.watcher;
    let a = &mut c.abort;
    assert_eq!(w.step(101, changed(&["/proj/src/scratch.tmp.rs"]), a), WatcherAction::Wait);
    assert_eq!(
        w.step(102, changed(&["/proj/src/scratch.tmp.rs", "/proj/src/real.rs"]), a),
        WatcherAction::Settle
    );
    assert_eq!(w.step(102, WatcherEvent::Settled, a), diff("/proj/src/real.rs"));
}
