use hot_reload::registry::{replay_lines, ConnectionRegistry};
use std::cell::RefCell;
use hot_reload::wire::{encode, HotReloadMsg, Template};

fn template(payload: &str) -> Template {
    Template::new(payload.as_bytes().to_vec())
}

fn update(payload: &str) -> HotReloadMsg {
    HotReloadMsg::UpdateTemplate(template(payload))
}

fn with_clients(ids: &[u64]) -> ConnectionRegistry {
    let mut registry = ConnectionRegistry::new();
    for id in ids {
        assert!(registry.enroll(*id, &Vec::new(), 0));
    }
    registry
}

#[test]
fn a_new_registry_is_empty() {
    let registry = ConnectionRegistry::new();
    assert!(registry.is_empty());
    assert_eq!(registry.len(), 0);
    assert_eq!(registry.connections(), Vec::<u64>::new());
    assert!(!registry.contains(1));
}

#[test]
fn replay_frames_each_template_in_order() {
    let lines = replay_lines(&vec![template("{\"a\":1}"), template("{\"b\":2}")]);
    assert_eq!(
        lines,
        vec![b"{\"UpdateTemplate\":{\"a\":1}}\n".to_vec(), b"{\"UpdateTemplate\":{\"b\":2}}\n".to_vec()]
    );
    assert_eq!(replay_lines(&Vec::new()), Vec::<Vec<u8>>::new());
}

#[test]
fn replay_leaves_out_a_template_that_cannot_be_sent() {
    let lines = replay_lines(&vec![template("1"), template("2\n"), template("3")]);
    assert_eq!(lines, vec![b"{\"UpdateTemplate\":1}\n".to_vec(), b"{\"UpdateTemplate\":3}\n".to_vec()]);
}

#[test]
fn a_newcomer_joins_after_a_complete_replay() {
    let mut registry = with_clients(&[7]);
    let lines = replay_lines(&vec![template("1"), template("2")]);
    assert!(registry.enroll(9, &lines, 2));
    assert_eq!(registry.connections(), vec![7, 9]);
    assert!(registry.contains(9));
    assert_eq!(registry.len(), 2);
}

#[test]
fn a_newcomer_whose_replay_was_cut_short_is_discarded() {
    let mut registry = with_clients(&[7]);
    let lines = replay_lines(&vec![template("1"), template("2")]);
    assert!(!registry.enroll(9, &lines, 1));
    assert!(!registry.enroll(10, &lines, 0));
    assert_eq!(registry.connections(), vec![7]);
}

#[test]
fn a_connection_is_registered_at_most_once() {
    let mut registry = with_clients(&[7, 8]);
    assert!(!registry.enroll(7, &Vec::new(), 0));
    assert_eq!(registry.connections(), vec![7, 8]);
}

#[test]
fn dispatch_targets_every_registered_connection() {
    let registry = with_clients(&[3, 1, 2]);
    let msg = update("{}");
    let dispatch = registry.dispatch(&msg).unwrap();
    assert_eq!(dispatch.targets, vec![3, 1, 2]);
    assert_eq!(Some(dispatch.line), encode(&msg));
    let quit = registry.dispatch(&HotReloadMsg::Shutdown).unwrap();
    assert_eq!(quit.line, b"\"Shutdown\"\n".to_vec());
    assert_eq!(quit.targets, vec![3, 1, 2]);
}

#[test]
fn a_message_that_cannot_be_serialized_is_dropped() {
    let registry = with_clients(&[1, 2]);
    assert!(registry.dispatch(&update("\n")).is_none());
    assert_eq!(registry.connections(), vec![1, 2]);
}

#[test]
fn a_failed_write_evicts_only_that_connection() {
    let mut registry = with_clients(&[1, 2, 3]);
    let dispatch = registry.dispatch(&update("{\"x\":1}")).unwrap();
    registry.settle(&dispatch, &vec![true, false, true]);
    assert_eq!(registry.connections(), vec![1, 3]);
    assert!(!registry.contains(2));
}

#[test]
fn a_write_without_an_outcome_counts_as_failed() {
    let mut registry = with_clients(&[1, 2, 3]);
    let dispatch = registry.dispatch(&HotReloadMsg::Shutdown).unwrap();
    registry.settle(&dispatch, &vec![true]);
    assert_eq!(registry.connections(), vec![1]);
}

#[test]
fn eviction_is_final_across_a_run_of_broadcasts() {
    let mut registry = with_clients(&[1, 2, 3, 4]);
    let outcomes = [vec![true, true, true, true], vec![true, false, true, true], vec![true, true, true]];
    let mut reached: Vec<Vec<u64>> = Vec::new();
    for (k, outcome) in outcomes.iter().enumerate() {
        let dispatch = registry.dispatch(&update(&format!("{k}"))).unwrap();
        reached.push(dispatch.targets.clone());
        registry.settle(&dispatch, outcome);
    }
    assert_eq!(reached, vec![vec![1, 2, 3, 4], vec![1, 2, 3, 4], vec![1, 3, 4]]);
    assert_eq!(registry.connections(), vec![1, 3, 4]);
}

#[test]
fn a_newcomer_is_a_target_only_once_it_has_joined() {
    let mut registry = with_clients(&[1]);
    let before = registry.dispatch(&update("1")).unwrap();
    assert_eq!(before.targets, vec![1]);
    registry.settle(&before, &vec![true]);
    let lines = replay_lines(&vec![template("1")]);
    assert!(registry.enroll(2, &lines, lines.len()));
    let after = registry.dispatch(&update("2")).unwrap();
    assert_eq!(after.targets, vec![1, 2]);
}

#[test]
fn settling_a_stale_dispatch_leaves_later_connections_alone() {
    let mut registry = with_clients(&[1, 2]);
    let dispatch = registry.dispatch(&HotReloadMsg::Shutdown).unwrap();
    assert!(registry.enroll(3, &Vec::new(), 0));
    registry.settle(&dispatch, &vec![false, true]);
    assert_eq!(registry.connections(), vec![2, 3]);
}

#[test]
fn accept_replays_in_order_and_registers() {
    let mut registry = with_clients(&[1]);
    let seen: RefCell<Vec<Vec<u8>>> = RefCell::new(Vec::new());
    let known = vec![template("{\"name\":\"A\"}"), template("{\"name\":\"B\"}")];
    let joined = registry.accept(2, &known, |line: &Vec<u8>| {
        seen.borrow_mut().push(line.clone());
        true
    });
    assert!(joined);
    assert_eq!(seen.into_inner(), replay_lines(&known));
    assert_eq!(registry.connections(), vec![1, 2]);
}

#[test]
fn accept_stops_at_the_first_failed_write_and_discards_the_newcomer() {
    let mut registry = with_clients(&[1]);
    let attempts: RefCell<Vec<Vec<u8>>> = RefCell::new(Vec::new());
    let known = vec![template("1"), template("2"), template("3")];
    let joined = registry.accept(2, &known, |line: &Vec<u8>| {
        attempts.borrow_mut().push(line.clone());
        attempts.borrow().len() < 2
    });
    assert!(!joined);
    assert_eq!(
        attempts.into_inner(),
        vec![b"{\"UpdateTemplate\":1}\n".to_vec(), b"{\"UpdateTemplate\":2}\n".to_vec()]
    );
    assert_eq!(registry.connections(), vec![1]);
}

#[test]
fn accept_with_nothing_to_replay_registers_at_once() {
    let mut registry = ConnectionRegistry::new();
    assert!(registry.accept(5, &Vec::new(), |_line: &Vec<u8>| false));
    assert_eq!(registry.connections(), vec![5]);
    assert!(!registry.accept(5, &Vec::new(), |_line: &Vec<u8>| true));
    assert_eq!(registry.connections(), vec![5]);
}

#[test]
fn broadcast_writes_to_each_connection_once_and_evicts_the_dead() {
    let mut registry = with_clients(&[1, 2, 3]);
    let writes: RefCell<Vec<(u64, Vec<u8>)>> = RefCell::new(Vec::new());
    let outcomes = registry.broadcast(&update("{\"name\":\"X\"}"), |conn: u64, line: &Vec<u8>| {
        writes.borrow_mut().push((conn, line.clone()));
        conn != 2
    });
    let line = b"{\"UpdateTemplate\":{\"name\":\"X\"}}\n".to_vec();
    assert_eq!(outcomes, vec![true, false, true]);
    assert_eq!(writes.into_inner(), vec![(1, line.clone()), (2, line.clone()), (3, line)]);
    assert_eq!(registry.connections(), vec![1, 3]);
}

#[test]
fn broadcast_of_an_unsendable_message_writes_nothing() {
    let mut registry = with_clients(&[1, 2]);
    let calls = RefCell::new(0);
    let outcomes = registry.broadcast(&update("a\nb"), |_conn: u64, _line: &Vec<u8>| {
        *calls.borrow_mut() += 1;
        false
    });
    assert_eq!(outcomes, Vec::<bool>::new());
    assert_eq!(calls.into_inner(), 0);
    assert_eq!(registry.connections(), vec![1, 2]);
}

#[test]
fn survivors_of_a_run_of_broadcasts_receive_every_message() {
    let mut registry = with_clients(&[1, 2, 3]);
    let received: RefCell<Vec<(u64, Vec<u8>)>> = RefCell::new(Vec::new());
    for k in 0..4 {
        registry.broadcast(&update(&format!("{k}")), |conn: u64, line: &Vec<u8>| {
            let ok = !(conn == 2 && k >= 1);
            if ok {
                received.borrow_mut().push((conn, line.clone()));
            }
            ok
        });
    }
    let received = received.into_inner();
    for conn in [1, 3] {
        let lines: Vec<Vec<u8>> =
            received.iter().filter(|(c, _)| *c == conn).map(|(_, l)| l.clone()).collect();
        let expected: Vec<Vec<u8>> =
            (0..4).map(|k| format!("{{\"UpdateTemplate\":{k}}}\n").into_bytes()).collect();
        assert_eq!(lines, expected);
    }
    let second: Vec<Vec<u8>> = received.iter().filter(|(c, _)| *c == 2).map(|(_, l)| l.clone()).collect();
    assert_eq!(second, vec![b"{\"UpdateTemplate\":0}\n".to_vec()]);
    assert_eq!(registry.connections(), vec![1, 3]);
}
