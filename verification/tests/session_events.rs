//! Session fan-out behaviour: bootstrap, filtering, snapshots, resizes,
//! dropped subscribers, and the PTY writer's pending buffer.

use ht::events::{Event, Subscription};
use ht::pty::{parse_exit_status, reap_decision, IoTri, PtyWriter, PumpStep, ReapAction,
    WaitOutcome, WaitProbe};
use ht::session::Session;

fn only(kinds: &[&str]) -> Subscription {
    Subscription {
        init: kinds.contains(&"init"),
        output: kinds.contains(&"output"),
        resize: kinds.contains(&"resize"),
        snapshot: kinds.contains(&"snapshot"),
        exit: kinds.contains(&"exit"),
    }
}

#[test]
fn bootstrap_is_init_then_snapshot() {
    let mut session = Session::new(120, 40, 77);
    let idx = session.subscribe(only(&["init", "snapshot"]), String::from("dump"));
    let events = session.take_pending(idx);
    assert_eq!(events.len(), 2);
    match &events[0] {
        Event::Init { cols, rows, pid } => {
            assert_eq!((*cols, *rows, *pid), (120, 40, 77));
        }
        _ => panic!("first bootstrap event must be init"),
    }
    match &events[1] {
        Event::Snapshot { data } => assert_eq!(data, "dump"),
        _ => panic!("second bootstrap event must be snapshot"),
    }
}

#[test]
fn bootstrap_is_filtered_too() {
    let mut session = Session::new(120, 40, 77);
    let idx = session.subscribe(only(&["snapshot"]), String::from("d"));
    let events = session.take_pending(idx);
    assert_eq!(events.len(), 1);
    assert!(matches!(events[0], Event::Snapshot { .. }));
}

#[test]
fn empty_subscription_receives_nothing() {
    let mut session = Session::new(120, 40, 77);
    let idx = session.subscribe(only(&[]), String::new());
    session.output(String::from("x"), None);
    session.resize(80, 24);
    session.snapshot(String::new());
    session.exit(0, None);
    assert_eq!(session.take_pending(idx).len(), 0);
}

#[test]
fn snapshots_are_never_collapsed() {
    let mut session = Session::new(120, 40, 77);
    let idx = session.subscribe(only(&["snapshot"]), String::from("s0"));
    session.snapshot(String::from("s1"));
    session.snapshot(String::from("s1"));
    session.snapshot(String::from("s2"));
    let events = session.take_pending(idx);
    assert_eq!(events.len(), 4);
    for ev in &events {
        assert!(matches!(ev, Event::Snapshot { .. }));
    }
}

#[test]
fn resize_to_current_size_still_emits_event() {
    let mut session = Session::new(120, 40, 77);
    let idx = session.subscribe(only(&["resize"]), String::new());
    let app_mode_before = session.cursor_key_app_mode();
    session.resize(120, 40);
    assert_eq!(session.size(), (120, 40));
    assert_eq!(session.cursor_key_app_mode(), app_mode_before);
    let events = session.take_pending(idx);
    assert_eq!(events.len(), 1);
    match &events[0] {
        Event::Resize { cols, rows } => assert_eq!((*cols, *rows), (120, 40)),
        _ => panic!("expected a resize event"),
    }
}

#[test]
fn output_updates_cursor_key_mode_only_on_transition() {
    let mut session = Session::new(120, 40, 77);
    assert!(!session.cursor_key_app_mode());
    session.output(String::from("a"), None);
    assert!(!session.cursor_key_app_mode());
    session.output(String::from("\x1b[?1h"), Some(true));
    assert!(session.cursor_key_app_mode());
    session.output(String::from("b"), None);
    assert!(session.cursor_key_app_mode());
    session.output(String::from("\x1b[?1l"), Some(false));
    assert!(!session.cursor_key_app_mode());
}

#[test]
fn take_pending_drains_the_queue() {
    let mut session = Session::new(120, 40, 77);
    let idx = session.subscribe(only(&["output"]), String::new());
    session.output(String::from("one"), None);
    assert_eq!(session.take_pending(idx).len(), 1);
    assert_eq!(session.take_pending(idx).len(), 0);
    session.output(String::from("two"), None);
    let events = session.take_pending(idx);
    assert_eq!(events.len(), 1);
    match &events[0] {
        Event::Output { seq } => assert_eq!(seq, "two"),
        _ => panic!("expected an output event"),
    }
}

#[test]
fn dropped_subscriber_receives_nothing_further() {
    let mut session = Session::new(120, 40, 77);
    assert_eq!(session.subscriber_count(), 0);
    let a = session.subscribe(only(&["output"]), String::new());
    let b = session.subscribe(only(&["output"]), String::new());
    assert_eq!(session.subscriber_count(), 2);
    session.output(String::from("first"), None);
    session.drop_subscriber(a);
    session.output(String::from("second"), None);
    assert_eq!(session.take_pending(a).len(), 1);
    assert_eq!(session.take_pending(b).len(), 2);
}

#[test]
fn subscribers_see_events_in_session_order() {
    let mut session = Session::new(120, 40, 77);
    let idx = session.subscribe(only(&["init", "output", "resize", "snapshot", "exit"]),
        String::from("s"));
    session.output(String::from("o1"), None);
    session.resize(80, 24);
    session.snapshot(String::from("s2"));
    session.exit(0, None);
    let events = session.take_pending(idx);
    let kinds: Vec<&str> = events
        .iter()
        .map(|e| match e {
            Event::Init { .. } => "init",
            Event::Output { .. } => "output",
            Event::Resize { .. } => "resize",
            Event::Snapshot { .. } => "snapshot",
            Event::Exit { .. } => "exit",
        })
        .collect();
    assert_eq!(
        kinds,
        vec!["init", "snapshot", "output", "resize", "snapshot", "exit"]
    );
}

#[test]
fn late_subscriber_sees_current_geometry() {
    let mut session = Session::new(120, 40, 77);
    session.resize(100, 30);
    let idx = session.subscribe(only(&["init"]), String::new());
    let events = session.take_pending(idx);
    match &events[0] {
        Event::Init { cols, rows, pid } => {
            assert_eq!((*cols, *rows, *pid), (100, 30, 77));
        }
        _ => panic!("expected an init event"),
    }
}

#[test]
fn writer_queues_and_advances() {
    let mut w = PtyWriter::new();
    assert!(!w.has_pending());
    w.queue(b"hello ");
    w.queue(b"world");
    assert!(w.has_pending());
    let step = w.on_write_result(IoTri::Bytes(6));
    assert!(matches!(step, PumpStep::Again));
    assert_eq!(w.pending, b"world".to_vec());
    // An accepted write that drains the buffer must not clear the
    // readiness guard: the step is Drained, not Suspend.
    let step = w.on_write_result(IoTri::Bytes(5));
    assert!(matches!(step, PumpStep::Drained));
    assert!(!w.has_pending());
}

#[test]
fn writer_input_channel_decisions() {
    let mut w = PtyWriter::new();
    assert!(!w.on_input(Some(b"ab")));
    assert!(!w.on_input(Some(b"cd")));
    assert_eq!(w.pending, b"abcd".to_vec());
    // A closed input channel signals shutdown intent: finish the pump.
    assert!(w.on_input(None));
    assert_eq!(w.pending, b"abcd".to_vec());
}

#[test]
fn writer_closed_and_would_block() {
    let mut w = PtyWriter::new();
    w.queue(b"abc");
    assert!(matches!(w.on_write_result(IoTri::WouldBlock), PumpStep::Suspend));
    assert_eq!(w.pending, b"abc".to_vec());
    assert!(matches!(w.on_write_result(IoTri::Closed), PumpStep::Finish));
}

#[test]
fn reader_steps() {
    assert!(matches!(PtyWriter::on_read_result(IoTri::Bytes(0)), PumpStep::Finish));
    assert!(matches!(
        PtyWriter::on_read_result(IoTri::Bytes(512)),
        PumpStep::Forward(512)
    ));
    assert!(matches!(PtyWriter::on_read_result(IoTri::Closed), PumpStep::Finish));
    assert!(matches!(
        PtyWriter::on_read_result(IoTri::WouldBlock),
        PumpStep::Suspend
    ));
}

#[test]
fn reap_still_alive_hangs_up_first() {
    assert!(matches!(
        reap_decision(WaitProbe::StillAlive),
        ReapAction::SignalHangupThenWait
    ));
}

#[test]
fn reap_already_done_maps_status() {
    match reap_decision(WaitProbe::Done(WaitOutcome::Signaled(15))) {
        ReapAction::AlreadyDone(st) => {
            assert_eq!(st.code, 143);
            assert_eq!(st.signal, Some(15));
        }
        _ => panic!("child already reaped must map directly"),
    }
    match reap_decision(WaitProbe::Done(WaitOutcome::Other)) {
        ReapAction::AlreadyDone(st) => {
            assert_eq!(st.code, 1);
            assert_eq!(st.signal, None);
        }
        _ => panic!("child already reaped must map directly"),
    }
}

#[test]
fn exit_status_mapping() {
    let st = parse_exit_status(WaitOutcome::Exited(42));
    assert_eq!((st.code, st.signal), (42, None));
    let st = parse_exit_status(WaitOutcome::Signaled(9));
    assert_eq!((st.code, st.signal), (137, Some(9)));
    let st = parse_exit_status(WaitOutcome::Other);
    assert_eq!((st.code, st.signal), (1, None));
}
