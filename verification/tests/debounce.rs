use hot_reload::debounce::Debouncer;
use hot_reload::session::{after_poll, AbortFlag, ListenerAction, CHANNEL_NAME, POLL_MILLIS};
use hot_reload::watcher::SETTLE_MILLIS;

#[test]
fn a_batch_is_looked_at_only_after_the_last_second() {
    let d = Debouncer::new(1_000);
    assert_eq!(d.last_action(), 1_000);
    assert!(!d.admits(999));
    assert!(!d.admits(1_000));
    assert!(d.admits(1_001));
    assert!(d.admits(i64::MAX));
    assert!(!d.admits(i64::MIN));
}

#[test]
fn marking_moves_the_gate() {
    let mut d = Debouncer::new(5);
    assert!(d.admits(6));
    d.mark(6);
    assert_eq!(d.last_action(), 6);
    assert!(!d.admits(6));
    assert!(d.admits(7));
    d.mark(3);
    assert!(d.admits(4));
}

#[test]
fn the_gate_at_the_largest_second_never_opens() {
    let d = Debouncer::new(i64::MAX);
    assert!(!d.admits(i64::MAX));
    assert!(!d.admits(0));
}

#[test]
fn the_listener_polls_until_the_flag_is_raised() {
    let mut flag = AbortFlag::new();
    assert!(!flag.is_raised());
    assert_eq!(after_poll(&flag), ListenerAction::Poll);
    flag.raise();
    assert_eq!(after_poll(&flag), ListenerAction::Stop);
    flag.raise();
    assert_eq!(after_poll(&flag), ListenerAction::Stop);
}

#[test]
fn the_pauses_are_ten_milliseconds() {
    assert_eq!(POLL_MILLIS, 10);
    assert_eq!(SETTLE_MILLIS, 10);
    assert_eq!(CHANNEL_NAME, "@dioxusin");
}
