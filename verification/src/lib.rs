//! A headless terminal host core: the verified logic of a PTY-hosting
//! event loop.
//!
//! The crate models the engine that drives a child process under a
//! pseudo-terminal: translating client commands into the byte sequences the
//! PTY receives, mapping the child's wait status to an exit report, keeping
//! the per-session state (size, pid, cursor-key mode), and fanning events
//! out to subscribers with per-subscriber filtering.  The surrounding
//! process plumbing (fork/exec, non-blocking descriptor I/O, async
//! channels) lives outside this crate and drives these functions.

pub mod command;
pub mod event_loop;
pub mod events;
pub mod pty;
pub mod session;
pub mod size;
pub mod wire;
