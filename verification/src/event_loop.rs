//! The central event loop, as a step function.
//!
//! The loop itself is a multi-way select run outside this crate: it waits
//! on the PTY driver's completion, the output channel, the command
//! channel, the client-arrival channel and the API task, and hands each
//! ready branch to `loop_step` as one `LoopEvent`.  Everything the loop
//! decides — what reaches the PTY, how the session mutates, which
//! admission flag latches shut, and when the loop may stop — is stated and
//! proved here.

use vstd::prelude::*;

use crate::command::Command;
use crate::command::mouse_in_bounds;
use crate::command::mouse_to_bytes;
use crate::command::press_of;
use crate::command::release_of;
use crate::command::seqs_bytes;
use crate::command::seqs_to_bytes;
use crate::command::sgr_bytes;
use crate::command::MouseEvent;
use crate::command::MouseEventType;
use crate::events::Event;
use crate::events::Subscription;
use crate::pty::ExitStatus;
use crate::session::emit_rel;
use crate::session::spec_bootstrap;
use crate::session::Session;
use crate::size::Size;

verus! {

/// The loop's admission flags.  Each starts true and is only ever latched
/// to false; a latched flag masks its branch but never ends the loop.
pub struct LoopFlags {
    pub output_open: bool,
    pub stdin_open: bool,
    pub serving: bool,
    pub api_running: bool,
}

impl LoopFlags {
    /// The flags at loop start: every branch admitted.
    pub fn new() -> (r: LoopFlags)
        ensures
            r.output_open && r.stdin_open && r.serving && r.api_running,
    {
        LoopFlags { output_open: true, stdin_open: true, serving: true, api_running: true }
    }
}

/// One ready branch of the select, with whatever outside state the step
/// needs: output chunks come with the emulator's reported cursor-key-mode
/// transition, and commands and client arrivals come with the emulator's
/// current screen dump (used when a snapshot event must be synthesized).
pub enum LoopEvent {
    /// The PTY driver resolved: `Some` carries the child's exit report,
    /// `None` means the driver failed.
    ChildExit(Option<ExitStatus>),
    /// A chunk of child output, already decoded for the event stream, and
    /// the cursor-key mode the emulator reports after consuming it.
    OutputChunk(String, Option<bool>),
    /// The output channel closed; the child may still take time to exit.
    OutputClosed,
    /// A client command, with the current screen dump.
    Cmd(Command, String),
    /// The command channel closed.
    CmdClosed,
    /// A new client with its subscription, and the current screen dump.
    NewClient(Subscription, String),
    /// The client-arrival channel closed.
    ClientsClosed,
    /// The external API task ended.
    ApiDone,
}

/// What the caller must do after a step: forward each byte run to the PTY
/// input channel in order, warn if a mouse command carried out-of-range
/// coordinates, and stop the loop only when `done` holds.
pub struct LoopAction {
    pub pty_writes: Vec<Vec<u8>>,
    pub warn_mouse: bool,
    pub done: bool,
}

/// Build the session for a freshly spawned child.
pub fn build_session(size: &Size, pid: i32) -> (r: Session)
    requires
        size.wf(),
    ensures
        r.cols == size.width_cols as usize,
        r.rows == size.height_rows as usize,
        r.pid == pid,
        !r.cursor_key_app_mode,
        !r.closed,
        r.subs@.len() == 0,
        r.wf(),
{
    Session::new(size.cols(), size.rows(), pid)
}

/// Process one ready branch.
///
/// The loop stops exactly on the child-exit branch (`done` holds iff the
/// event is `ChildExit`): every closed channel merely latches its flag, so
/// a dropped command or client channel can never race the final `exit`
/// event past a live subscriber.  Command serialization reads the
/// cursor-key mode at dispatch time; a `MouseClick` yields exactly the
/// press serialization followed by the release serialization with the
/// same coordinates, button and modifiers.
pub fn loop_step(flags: &mut LoopFlags, session: &mut Session, ev: LoopEvent) -> (action:
    LoopAction)
    requires
        old(session).wf(),
        !old(session).closed,
        ev matches LoopEvent::Cmd(cmd, dump) ==> (cmd matches Command::Resize(c, r) ==> c >= 1
            && r >= 1),
    ensures
        final(session).wf(),
        action.done == (ev is ChildExit),
        final(session).closed == (ev is ChildExit),
        final(session).pid == old(session).pid,
        match ev {
            LoopEvent::ChildExit(st) => {
                let report = match st {
                    Some(r) => r,
                    None => ExitStatus { code: 1, signal: None },
                };
                &&& *final(flags) == *old(flags)
                &&& action.pty_writes@.len() == 0
                &&& !action.warn_mouse
                &&& final(session).cols == old(session).cols
                &&& final(session).rows == old(session).rows
                &&& final(session).cursor_key_app_mode == old(session).cursor_key_app_mode
                &&& final(session).subs@.len() == old(session).subs@.len()
                &&& forall|i: int|
                    0 <= i < old(session).subs@.len() ==> emit_rel(
                        old(session).subs@[i],
                        #[trigger] final(session).subs@[i],
                        Event::Exit { code: report.code, signal: report.signal },
                    )
            },
            LoopEvent::OutputChunk(data, mode_transition) => {
                &&& *final(flags) == *old(flags)
                &&& action.pty_writes@.len() == 0
                &&& !action.warn_mouse
                &&& final(session).cols == old(session).cols
                &&& final(session).rows == old(session).rows
                &&& final(session).cursor_key_app_mode == (match mode_transition {
                    Some(m) => m,
                    None => old(session).cursor_key_app_mode,
                })
                &&& final(session).subs@.len() == old(session).subs@.len()
                &&& forall|i: int|
                    0 <= i < old(session).subs@.len() ==> emit_rel(
                        old(session).subs@[i],
                        #[trigger] final(session).subs@[i],
                        Event::Output { seq: data },
                    )
            },
            LoopEvent::OutputClosed => {
                &&& *final(session) == *old(session)
                &&& action.pty_writes@.len() == 0
                &&& !action.warn_mouse
                &&& !final(flags).output_open
                &&& final(flags).stdin_open == old(flags).stdin_open
                &&& final(flags).serving == old(flags).serving
                &&& final(flags).api_running == old(flags).api_running
            },
            LoopEvent::Cmd(cmd, dump) => {
                &&& *final(flags) == *old(flags)
                &&& match cmd {
                    Command::Input(seqs) => {
                        &&& *final(session) == *old(session)
                        &&& action.pty_writes@.len() == 1
                        &&& action.pty_writes@[0]@ == seqs_bytes(
                            seqs@,
                            old(session).cursor_key_app_mode,
                        )
                        &&& !action.warn_mouse
                    },
                    Command::Mouse(e) => {
                        &&& *final(session) == *old(session)
                        &&& action.pty_writes@.len() == 1
                        &&& action.pty_writes@[0]@ == sgr_bytes(e)
                        &&& action.warn_mouse == !(e.row <= old(session).rows && e.col <= old(
                            session,
                        ).cols)
                    },
                    Command::MouseClick(e) => {
                        &&& *final(session) == *old(session)
                        &&& action.pty_writes@.len() == 2
                        &&& action.pty_writes@[0]@ == sgr_bytes(press_of(e))
                        &&& action.pty_writes@[1]@ == sgr_bytes(release_of(e))
                        &&& action.warn_mouse == !(e.row <= old(session).rows && e.col <= old(
                            session,
                        ).cols)
                    },
                    Command::Snapshot => {
                        &&& action.pty_writes@.len() == 0
                        &&& !action.warn_mouse
                        &&& final(session).cols == old(session).cols
                        &&& final(session).rows == old(session).rows
                        &&& final(session).cursor_key_app_mode == old(
                            session,
                        ).cursor_key_app_mode
                        &&& final(session).subs@.len() == old(session).subs@.len()
                        &&& forall|i: int|
                            0 <= i < old(session).subs@.len() ==> emit_rel(
                                old(session).subs@[i],
                                #[trigger] final(session).subs@[i],
                                Event::Snapshot { data: dump },
                            )
                    },
                    Command::Resize(cols, rows) => {
                        &&& action.pty_writes@.len() == 0
                        &&& !action.warn_mouse
                        &&& final(session).cols == cols
                        &&& final(session).rows == rows
                        &&& final(session).cursor_key_app_mode == old(
                            session,
                        ).cursor_key_app_mode
                        &&& final(session).subs@.len() == old(session).subs@.len()
                        &&& forall|i: int|
                            0 <= i < old(session).subs@.len() ==> emit_rel(
                                old(session).subs@[i],
                                #[trigger] final(session).subs@[i],
                                Event::Resize { cols, rows },
                            )
                    },
                }
            },
            LoopEvent::CmdClosed => {
                &&& *final(session) == *old(session)
                &&& action.pty_writes@.len() == 0
                &&& !action.warn_mouse
                &&& final(flags).output_open == old(flags).output_open
                &&& !final(flags).stdin_open
                &&& final(flags).serving == old(flags).serving
                &&& final(flags).api_running == old(flags).api_running
            },
            LoopEvent::NewClient(subscription, dump) => {
                &&& *final(flags) == *old(flags)
                &&& action.pty_writes@.len() == 0
                &&& !action.warn_mouse
                &&& final(session).cols == old(session).cols
                &&& final(session).rows == old(session).rows
                &&& final(session).cursor_key_app_mode == old(session).cursor_key_app_mode
                &&& final(session).subs@.len() == old(session).subs@.len() + 1
                &&& forall|i: int|
                    0 <= i < old(session).subs@.len() ==> final(session).subs@[i] == old(
                        session,
                    ).subs@[i]
                &&& final(session).subs@[old(session).subs@.len() as int].subscription
                    == subscription
                &&& final(session).subs@[old(session).subs@.len() as int].open
                &&& final(session).subs@[old(session).subs@.len() as int].taken@ == Seq::<
                    Event,
                >::empty()
                &&& final(session).subs@[old(session).subs@.len() as int].queue@
                    == spec_bootstrap(
                    subscription,
                    old(session).cols,
                    old(session).rows,
                    old(session).pid,
                    dump,
                )
            },
            LoopEvent::ClientsClosed => {
                &&& *final(session) == *old(session)
                &&& action.pty_writes@.len() == 0
                &&& !action.warn_mouse
                &&& final(flags).output_open == old(flags).output_open
                &&& final(flags).stdin_open == old(flags).stdin_open
                &&& !final(flags).serving
                &&& final(flags).api_running == old(flags).api_running
            },
            LoopEvent::ApiDone => {
                &&& *final(session) == *old(session)
                &&& action.pty_writes@.len() == 0
                &&& !action.warn_mouse
                &&& final(flags).output_open == old(flags).output_open
                &&& final(flags).stdin_open == old(flags).stdin_open
                &&& final(flags).serving == old(flags).serving
                &&& !final(flags).api_running
            },
        },
{
    match ev {
        LoopEvent::ChildExit(st) => {
            let report = match st {
                Some(r) => r,
                None => ExitStatus { code: 1, signal: None },
            };
            session.exit(report.code, report.signal);
            LoopAction { pty_writes: Vec::new(), warn_mouse: false, done: true }
        },
        LoopEvent::OutputChunk(data, mode_transition) => {
            session.output(data, mode_transition);
            LoopAction { pty_writes: Vec::new(), warn_mouse: false, done: false }
        },
        LoopEvent::OutputClosed => {
            flags.output_open = false;
            LoopAction { pty_writes: Vec::new(), warn_mouse: false, done: false }
        },
        LoopEvent::Cmd(cmd, dump) => {
            match cmd {
                Command::Input(seqs) => {
                    let data = seqs_to_bytes(seqs.as_slice(), session.cursor_key_app_mode());
                    let mut writes: Vec<Vec<u8>> = Vec::new();
                    writes.push(data);
                    LoopAction { pty_writes: writes, warn_mouse: false, done: false }
                },
                Command::Mouse(e) => {
                    let in_bounds = mouse_in_bounds(&e, session.cols, session.rows);
                    let data = mouse_to_bytes(&e);
                    let mut writes: Vec<Vec<u8>> = Vec::new();
                    writes.push(data);
                    LoopAction { pty_writes: writes, warn_mouse: !in_bounds, done: false }
                },
                Command::MouseClick(e) => {
                    let in_bounds = mouse_in_bounds(&e, session.cols, session.rows);
                    let press = MouseEvent {
                        event_type: MouseEventType::Press,
                        button: e.button,
                        row: e.row,
                        col: e.col,
                        modifiers: e.modifiers,
                    };
                    let release = MouseEvent {
                        event_type: MouseEventType::Release,
                        button: e.button,
                        row: e.row,
                        col: e.col,
                        modifiers: e.modifiers,
                    };
                    assert(press == press_of(e));
                    assert(release == release_of(e));
                    let press_data = mouse_to_bytes(&press);
                    let release_data = mouse_to_bytes(&release);
                    let mut writes: Vec<Vec<u8>> = Vec::new();
                    writes.push(press_data);
                    writes.push(release_data);
                    LoopAction { pty_writes: writes, warn_mouse: !in_bounds, done: false }
                },
                Command::Snapshot => {
                    session.snapshot(dump);
                    LoopAction { pty_writes: Vec::new(), warn_mouse: false, done: false }
                },
                Command::Resize(cols, rows) => {
                    session.resize(cols, rows);
                    LoopAction { pty_writes: Vec::new(), warn_mouse: false, done: false }
                },
            }
        },
        LoopEvent::CmdClosed => {
            flags.stdin_open = false;
            LoopAction { pty_writes: Vec::new(), warn_mouse: false, done: false }
        },
        LoopEvent::NewClient(subscription, dump) => {
            let _idx = session.subscribe(subscription, dump);
            LoopAction { pty_writes: Vec::new(), warn_mouse: false, done: false }
        },
        LoopEvent::ClientsClosed => {
            flags.serving = false;
            LoopAction { pty_writes: Vec::new(), warn_mouse: false, done: false }
        },
        LoopEvent::ApiDone => {
            flags.api_running = false;
            LoopAction { pty_writes: Vec::new(), warn_mouse: false, done: false }
        },
    }
}

} // verus!
