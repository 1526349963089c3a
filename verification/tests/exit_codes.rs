//! Exit reporting through the whole model: wait outcome to exit report to
//! the event a subscriber sees.

use ht::command::{Command, InputSeq};
use ht::event_loop::{build_session, loop_step, LoopEvent, LoopFlags};
use ht::events::{parse_subscription, Event};
use ht::pty::{parse_exit_status, WaitOutcome};
use ht::size::Size;

fn run_child_exit(subscribe: &str, outcome: WaitOutcome) -> Vec<Event> {
    let sub = parse_subscription(subscribe).expect("subscription must parse");
    let mut flags = LoopFlags::new();
    let mut session = build_session(&Size::new(120, 40), 4242);
    let action = loop_step(
        &mut flags,
        &mut session,
        LoopEvent::NewClient(sub, String::new()),
    );
    assert!(!action.done);
    let status = parse_exit_status(outcome);
    let action = loop_step(&mut flags, &mut session, LoopEvent::ChildExit(Some(status)));
    assert!(action.done, "Process should exit");
    session.take_pending(0)
}

#[test]
fn test_normal_exit_code_zero() {
    let events = run_child_exit("exit", WaitOutcome::Exited(0));
    assert!(!events.is_empty(), "Should receive exit event");
    match &events[0] {
        Event::Exit { code, signal } => {
            assert_eq!(*code, 0, "Exit event should have data");
            assert_eq!(*signal, None);
        }
        other => panic!("expected exit event, got {:?}", kind_name(other)),
    }
}

#[test]
fn test_normal_exit_code_nonzero() {
    let events = run_child_exit("exit", WaitOutcome::Exited(42));
    assert!(!events.is_empty(), "Should receive exit event");
    match &events[0] {
        Event::Exit { code, signal } => {
            assert_eq!(*code, 42, "Exit event should have data");
            assert_eq!(*signal, None);
        }
        other => panic!("expected exit event, got {:?}", kind_name(other)),
    }
}

#[test]
fn test_exit_code_1() {
    let events = run_child_exit("exit", WaitOutcome::Exited(1));
    assert!(!events.is_empty(), "Should receive exit event");
    match &events[0] {
        Event::Exit { code, signal } => {
            assert_eq!(*code, 1, "Exit event should have data");
            assert_eq!(*signal, None);
        }
        other => panic!("expected exit event, got {:?}", kind_name(other)),
    }
}

#[test]
fn test_exit_code_255() {
    let events = run_child_exit("exit", WaitOutcome::Exited(255));
    assert!(!events.is_empty(), "Should receive exit event");
    match &events[0] {
        Event::Exit { code, signal } => {
            assert_eq!(*code, 255, "Exit event should have data");
            assert_eq!(*signal, None);
        }
        other => panic!("expected exit event, got {:?}", kind_name(other)),
    }
}

#[test]
fn test_signal_termination_sigterm() {
    let events = run_child_exit("init,exit", WaitOutcome::Signaled(15));
    assert!(events.len() >= 2, "Should receive init event");
    match &events[0] {
        Event::Init { pid, .. } => {
            assert_eq!(*pid, 4242, "Init event should have pid");
        }
        other => panic!("expected init event, got {:?}", kind_name(other)),
    }
    match &events[1] {
        Event::Exit { code, signal } => {
            assert_eq!(*code, 143, "Exit event should have data");
            assert_eq!(*signal, Some(15));
        }
        other => panic!("expected exit event, got {:?}", kind_name(other)),
    }
}

#[test]
fn test_signal_termination_sigkill() {
    let events = run_child_exit("init,exit", WaitOutcome::Signaled(9));
    assert!(events.len() >= 2, "Should receive init event");
    match &events[0] {
        Event::Init { pid, .. } => {
            assert_eq!(*pid, 4242, "Init event should have pid");
        }
        other => panic!("expected init event, got {:?}", kind_name(other)),
    }
    match &events[1] {
        Event::Exit { code, signal } => {
            assert_eq!(*code, 137, "Exit event should have data");
            assert_eq!(*signal, Some(9));
        }
        other => panic!("expected exit event, got {:?}", kind_name(other)),
    }
}

#[test]
fn test_subscription_filtering_exit_only() {
    // Subscribed to exit alone: output produced before the exit is never
    // delivered, so the first event is the exit event.
    let sub = parse_subscription("exit").expect("subscription must parse");
    let mut flags = LoopFlags::new();
    let mut session = build_session(&Size::new(120, 40), 4242);
    loop_step(
        &mut flags,
        &mut session,
        LoopEvent::NewClient(sub, String::new()),
    );
    loop_step(
        &mut flags,
        &mut session,
        LoopEvent::OutputChunk(String::from("hello\r\n"), None),
    );
    let status = parse_exit_status(WaitOutcome::Exited(5));
    loop_step(&mut flags, &mut session, LoopEvent::ChildExit(Some(status)));
    let events = session.take_pending(0);
    assert!(!events.is_empty(), "Should receive at least one event");
    match &events[0] {
        Event::Exit { code, .. } => {
            assert_eq!(*code, 5, "Exit event should have data");
        }
        other => panic!(
            "First event should be exit when subscribed to exit only, got {:?}",
            kind_name(other)
        ),
    }
}

#[test]
fn test_subscription_filtering_no_exit() {
    // Subscribed to init and output: the exit event is never delivered.
    let sub = parse_subscription("init,output").expect("subscription must parse");
    let mut flags = LoopFlags::new();
    let mut session = build_session(&Size::new(120, 40), 4242);
    loop_step(
        &mut flags,
        &mut session,
        LoopEvent::NewClient(sub, String::new()),
    );
    loop_step(
        &mut flags,
        &mut session,
        LoopEvent::OutputChunk(String::from("hello\r\n"), None),
    );
    let status = parse_exit_status(WaitOutcome::Exited(7));
    let action = loop_step(&mut flags, &mut session, LoopEvent::ChildExit(Some(status)));
    assert!(action.done, "Process should exit");
    let events = session.take_pending(0);
    assert!(
        matches!(events[0], Event::Init { .. }),
        "Should receive init event"
    );
    for ev in &events {
        assert!(
            !matches!(ev, Event::Exit { .. }),
            "Should not receive exit event when not subscribed"
        );
    }
}

#[test]
fn test_subprocess_signal_exit_code() {
    // A shell whose inner command was signaled exits normally with status
    // 143: the shell itself was not signaled.
    let events = run_child_exit("exit", WaitOutcome::Exited(143));
    assert!(!events.is_empty(), "Should receive exit event");
    match &events[0] {
        Event::Exit { code, signal } => {
            assert_eq!(*code, 143, "Exit event should have data");
            assert_eq!(
                *signal, None,
                "Signal should be null when subprocess is killed but shell exits normally"
            );
        }
        other => panic!("expected exit event, got {:?}", kind_name(other)),
    }
}

#[test]
fn test_interactive_exit_command() {
    let sub = parse_subscription("init,exit").expect("subscription must parse");
    let mut flags = LoopFlags::new();
    let mut session = build_session(&Size::new(120, 40), 4242);
    loop_step(
        &mut flags,
        &mut session,
        LoopEvent::NewClient(sub, String::new()),
    );
    // The typed command reaches the PTY as its exact bytes.
    let action = loop_step(
        &mut flags,
        &mut session,
        LoopEvent::Cmd(
            Command::Input(vec![InputSeq::Standard(String::from("exit 99\n"))]),
            String::new(),
        ),
    );
    assert_eq!(action.pty_writes.len(), 1);
    assert_eq!(action.pty_writes[0], b"exit 99\n".to_vec());
    let status = parse_exit_status(WaitOutcome::Exited(99));
    let action = loop_step(&mut flags, &mut session, LoopEvent::ChildExit(Some(status)));
    assert!(action.done, "Process should exit");
    let events = session.take_pending(0);
    assert!(
        matches!(events[0], Event::Init { .. }),
        "Should receive init event"
    );
    match &events[1] {
        Event::Exit { code, signal } => {
            assert_eq!(*code, 99, "Exit event should have data");
            assert_eq!(*signal, None);
        }
        other => panic!("Should receive exit event, got {:?}", kind_name(other)),
    }
}

#[test]
fn test_exit_event_structure() {
    let events = run_child_exit("exit", WaitOutcome::Exited(0));
    assert!(!events.is_empty(), "Should receive exit event");
    assert!(
        matches!(events[0], Event::Exit { .. }),
        "Exit event should have data field"
    );
    match &events[0] {
        Event::Exit { code, signal } => {
            assert_eq!(*code, 0, "Exit data should have code field");
            assert!(
                signal.is_none(),
                "Exit data should have signal field (even if null)"
            );
        }
        _ => unreachable!(),
    }
    assert_eq!(events.len(), 1, "Process should exit");
}

#[test]
fn test_multiple_commands_exit_code() {
    let events = run_child_exit("exit", WaitOutcome::Exited(13));
    assert!(!events.is_empty(), "Should receive exit event");
    match &events[0] {
        Event::Exit { code, .. } => {
            assert_eq!(*code, 13, "Exit event should have data");
        }
        other => panic!("expected exit event, got {:?}", kind_name(other)),
    }
}

fn kind_name(e: &Event) -> &'static str {
    match e {
        Event::Init { .. } => "init",
        Event::Output { .. } => "output",
        Event::Resize { .. } => "resize",
        Event::Snapshot { .. } => "snapshot",
        Event::Exit { .. } => "exit",
    }
}
