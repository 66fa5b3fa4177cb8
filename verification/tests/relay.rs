//! End-to-end checks of the relay core: store round trips, dispatch of
//! ordinary and malformed traffic, resend replay, and worker lifecycle.

use drop_copy::dispatch::process_inbound;
use drop_copy::message::Message;
use drop_copy::numeric::parse_u64;
use drop_copy::resend::{build_replay, parse_resend_request};
use drop_copy::store::MessageStore;
use drop_copy::worker::{worker_init, worker_step, WorkerAction, WorkerEvent, WorkerState};

fn msg(pairs: &[(u32, &str)]) -> Message {
    let mut m = Message::new();
    for (tag, value) in pairs {
        m.set_field(*tag, (*value).to_string());
    }
    m
}

fn app_msg(seq: &str) -> Message {
    msg(&[(35, "8"), (34, seq), (55, "ABC")])
}

fn resend_msg(seq: &str, begin: &str, end: &str) -> Message {
    msg(&[(35, "2"), (34, seq), (7, begin), (16, end)])
}

#[test]
fn store_round_trip_returns_inserted() {
    let mut store = MessageStore::new();
    let m = app_msg("5");
    store.insert(5, &m);
    assert_eq!(store.lookup(5), Some(m));
}

#[test]
fn lookup_never_inserted_is_absent() {
    let mut store = MessageStore::new();
    assert_eq!(store.lookup(7), None);
    store.insert(3, &app_msg("3"));
    assert_eq!(store.lookup(7), None);
}

#[test]
fn insert_overwrites_same_sequence_number() {
    let mut store = MessageStore::new();
    store.insert(4, &msg(&[(34, "4"), (58, "first")]));
    let second = msg(&[(34, "4"), (58, "second")]);
    store.insert(4, &second);
    assert_eq!(store.lookup(4), Some(second));
}

#[test]
fn replay_skips_gaps_in_ascending_order() {
    let mut store = MessageStore::new();
    store.insert(5, &app_msg("5"));
    store.insert(7, &app_msg("7"));
    let out = build_replay(&store, 5, 8);
    assert_eq!(out.len(), 2);
    assert_eq!(out[0].get_field(34).as_deref(), Some("5"));
    assert_eq!(out[1].get_field(34).as_deref(), Some("7"));
    assert_eq!(out[0].get_field(43).as_deref(), Some("Y"));
    assert_eq!(out[1].get_field(43).as_deref(), Some("Y"));
}

#[test]
fn replay_of_reversed_range_is_empty() {
    let mut store = MessageStore::new();
    store.insert(9, &app_msg("9"));
    store.insert(10, &app_msg("10"));
    let out = build_replay(&store, 10, 9);
    assert!(out.is_empty());
}

#[test]
fn replay_leaves_stored_copy_unflagged() {
    let mut store = MessageStore::new();
    store.insert(5, &app_msg("5"));
    let out = build_replay(&store, 5, 5);
    assert_eq!(out[0].get_field(43).as_deref(), Some("Y"));
    let stored = store.lookup(5).unwrap();
    assert_eq!(stored.get_field(43), None);
}

#[test]
fn replay_flags_only_the_copy_on_repeat() {
    let mut store = MessageStore::new();
    store.insert(6, &app_msg("6"));
    build_replay(&store, 6, 6);
    let again = build_replay(&store, 6, 6);
    assert_eq!(again.len(), 1);
    assert_eq!(store.lookup(6).unwrap().get_field(43), None);
}

#[test]
fn ordinary_message_is_stored_and_forwarded() {
    let mut store = MessageStore::new();
    let m = app_msg("12");
    let outcome = process_inbound(&mut store, &m);
    assert!(outcome.forward_to_handler);
    assert_eq!(outcome.stored_at, Some(12));
    assert!(outcome.to_send.is_empty());
    assert!(!outcome.resend_dropped);
    assert_eq!(store.lookup(12), Some(m));
}

#[test]
fn message_without_seq_num_is_forwarded_not_stored() {
    let mut store = MessageStore::new();
    let m = msg(&[(35, "8"), (55, "ABC")]);
    let outcome = process_inbound(&mut store, &m);
    assert!(outcome.forward_to_handler);
    assert_eq!(outcome.stored_at, None);
    assert_eq!(store.lookup(0), None);
}

#[test]
fn message_with_unparsable_seq_num_is_forwarded_not_stored() {
    let mut store = MessageStore::new();
    let m = msg(&[(35, "8"), (34, "12a")]);
    let outcome = process_inbound(&mut store, &m);
    assert!(outcome.forward_to_handler);
    assert_eq!(outcome.stored_at, None);
    assert_eq!(store.lookup(12), None);
}

#[test]
fn resend_request_drives_replay_of_updated_store() {
    let mut store = MessageStore::new();
    store.insert(5, &app_msg("5"));
    let request = resend_msg("6", "5", "6");
    let outcome = process_inbound(&mut store, &request);
    assert_eq!(outcome.stored_at, Some(6));
    assert!(!outcome.resend_dropped);
    assert_eq!(outcome.to_send.len(), 2);
    assert_eq!(outcome.to_send[0].get_field(34).as_deref(), Some("5"));
    assert_eq!(outcome.to_send[1].get_field(34).as_deref(), Some("6"));
    assert_eq!(outcome.to_send[1].get_field(43).as_deref(), Some("Y"));
}

#[test]
fn resend_request_with_missing_bound_is_dropped() {
    let mut store = MessageStore::new();
    store.insert(5, &app_msg("5"));
    let request = msg(&[(35, "2"), (34, "6"), (7, "5")]);
    let outcome = process_inbound(&mut store, &request);
    assert!(outcome.resend_dropped);
    assert!(outcome.to_send.is_empty());
    assert!(outcome.forward_to_handler);
    assert_eq!(outcome.stored_at, Some(6));
}

#[test]
fn resend_request_with_unparsable_bound_is_dropped() {
    let mut store = MessageStore::new();
    let request = resend_msg("6", "x5", "6");
    let outcome = process_inbound(&mut store, &request);
    assert!(outcome.resend_dropped);
    assert!(outcome.to_send.is_empty());
    assert_eq!(parse_resend_request(&request), None);
}

#[test]
fn parse_resend_request_reads_both_bounds() {
    let request = resend_msg("6", "5", "8");
    let parsed = parse_resend_request(&request).unwrap();
    assert_eq!(parsed.begin, 5);
    assert_eq!(parsed.end, 8);
}

#[test]
fn two_sessions_run_independently() {
    let mut store_a = MessageStore::new();
    let mut store_b = MessageStore::new();
    process_inbound(&mut store_a, &app_msg("1"));
    process_inbound(&mut store_b, &app_msg("1"));

    let bad_request = resend_msg("2", "oops", "3");
    let outcome_a = process_inbound(&mut store_a, &bad_request);
    assert!(outcome_a.resend_dropped);

    let (state_a, _) = worker_init();
    let stopped_a = worker_step(state_a, WorkerEvent::StartFailed);
    assert_eq!(stopped_a.0, WorkerState::Stopped);

    let (state_b, _) = worker_init();
    assert_eq!(state_b, WorkerState::Starting);
    assert_eq!(store_b.lookup(1), Some(app_msg("1")));
    assert_eq!(store_b.lookup(2), None);
}

#[test]
fn parse_u64_accepts_plain_decimals() {
    assert_eq!(parse_u64("0"), Some(0));
    assert_eq!(parse_u64("123"), Some(123));
    assert_eq!(parse_u64("007"), Some(7));
    assert_eq!(parse_u64("18446744073709551615"), Some(u64::MAX));
}

#[test]
fn parse_u64_rejects_malformed_input() {
    assert_eq!(parse_u64(""), None);
    assert_eq!(parse_u64("+1"), None);
    assert_eq!(parse_u64("1a"), None);
    assert_eq!(parse_u64("-3"), None);
    assert_eq!(parse_u64("18446744073709551616"), None);
}

#[test]
fn set_field_replaces_in_place_and_appends_at_end() {
    let mut m = Message::new();
    m.set_field(35, "8".to_string());
    m.set_field(34, "1".to_string());
    m.set_field(35, "2".to_string());
    assert_eq!(m.get_field(35).as_deref(), Some("2"));
    assert_eq!(m.get_field(34).as_deref(), Some("1"));
    m.set_field(43, "Y".to_string());
    assert_eq!(m.get_field(43).as_deref(), Some("Y"));
    assert_eq!(m, msg(&[(35, "2"), (34, "1"), (43, "Y")]));
}

#[test]
fn cloned_message_equals_original() {
    let m = resend_msg("6", "5", "8");
    let c = m.clone();
    assert_eq!(c, m);
}

#[test]
fn worker_walks_its_lifecycle_in_order() {
    let (s0, a0) = worker_init();
    assert_eq!((s0, a0), (WorkerState::Starting, WorkerAction::StartEngine));
    let (s1, a1) = worker_step(s0, WorkerEvent::EngineStarted);
    assert_eq!((s1, a1), (WorkerState::Running, WorkerAction::AwaitStop));
    let (s2, a2) = worker_step(s1, WorkerEvent::StopRequested);
    assert_eq!((s2, a2), (WorkerState::Stopping, WorkerAction::StopEngine));
    let (s3, a3) = worker_step(s2, WorkerEvent::EngineStopped);
    assert_eq!((s3, a3), (WorkerState::Stopped, WorkerAction::Exit));
}

#[test]
fn worker_start_failure_is_fatal_to_that_worker() {
    let (s0, _) = worker_init();
    let (s1, a1) = worker_step(s0, WorkerEvent::StartFailed);
    assert_eq!((s1, a1), (WorkerState::Stopped, WorkerAction::Exit));
}

#[test]
fn worker_ignores_events_that_do_not_concern_its_state() {
    let (running, _) = worker_step(WorkerState::Starting, WorkerEvent::EngineStarted);
    let (still_running, action) = worker_step(running, WorkerEvent::EngineStopped);
    assert_eq!(still_running, WorkerState::Running);
    assert_eq!(action, WorkerAction::AwaitStop);
}

#[test]
fn worker_stopped_is_terminal() {
    for event in [
        WorkerEvent::EngineStarted,
        WorkerEvent::StartFailed,
        WorkerEvent::StopRequested,
        WorkerEvent::EngineStopped,
    ] {
        let (s, a) = worker_step(WorkerState::Stopped, event);
        assert_eq!((s, a), (WorkerState::Stopped, WorkerAction::Exit));
    }
}
