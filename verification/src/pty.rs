//! Child exit reporting and the PTY driver's write-side state machine.
//!
//! The driver itself lives outside the crate: it forks the child under a
//! pseudo-terminal, registers the master descriptor with a readiness
//! reactor, and pumps bytes.  Every decision it takes — how a wait status
//! becomes an exit report, what to do when the first non-blocking wait
//! finds the child still alive, how the pending-input buffer advances as
//! the kernel accepts bytes, and how each tri-state I/O result is acted
//! on — is a function here, verified for every input.

use vstd::prelude::*;

verus! {

/// The exit report of the child process.
///
/// `signal` is `Some(n)` exactly when the child was terminated by signal
/// `n`, and then `code == 128 + n`; a normal exit with status `s` gives
/// `code == s` and `signal == None`.
pub struct ExitStatus {
    pub code: i32,
    pub signal: Option<i32>,
}

impl ExitStatus {
    /// The invariant tying the two fields together.
    pub open spec fn wf(self) -> bool {
        match self.signal {
            Some(n) => self.code == 128 + n,
            None => true,
        }
    }
}

/// What a completed wait on the child reported: a normal exit with a
/// status, termination by a signal, or any other terminal status.
pub enum WaitOutcome {
    Exited(i32),
    Signaled(i32),
    Other,
}

/// The exit report derived from a wait outcome.
pub open spec fn exit_status_of(w: WaitOutcome) -> ExitStatus {
    match w {
        WaitOutcome::Exited(s) => ExitStatus { code: s, signal: None },
        WaitOutcome::Signaled(n) => ExitStatus { code: (128 + n) as i32, signal: Some(n) },
        WaitOutcome::Other => ExitStatus { code: 1, signal: None },
    }
}

/// Map the child's wait status to its exit report: a normal exit keeps its
/// status as the code with no signal; a signaled exit reports `128 + n`
/// and records the signal; anything else reports code 1.
pub fn parse_exit_status(status: WaitOutcome) -> (r: ExitStatus)
    requires
        status matches WaitOutcome::Signaled(n) ==> 0 <= n <= i32::MAX - 128,
    ensures
        r == exit_status_of(status),
{
    match status {
        WaitOutcome::Exited(code) => ExitStatus { code, signal: None },
        WaitOutcome::Signaled(n) => ExitStatus { code: 128 + n, signal: Some(n) },
        WaitOutcome::Other => ExitStatus { code: 1, signal: None },
    }
}

/// A normal exit reports the child's own status and no signal; a signaled
/// exit reports `128 + n` with the signal recorded — and the two cases
/// never produce the same report shape, so a status of `128 + n` returned
/// by `exit` stays distinguishable from death by signal `n`.
pub proof fn lemma_exit_report(s: i32, n: i32)
    ensures
        exit_status_of(WaitOutcome::Exited(s)) == (ExitStatus { code: s, signal: None::<i32> }),
        exit_status_of(WaitOutcome::Signaled(n)) == (ExitStatus {
            code: (128 + n) as i32,
            signal: Some(n),
        }),
        exit_status_of(WaitOutcome::Exited(s)).signal is None,
        exit_status_of(WaitOutcome::Signaled(n)).signal is Some,
{
}

/// Every wait outcome with a plausible signal number yields a well-formed
/// exit report.
pub proof fn lemma_exit_status_wf(w: WaitOutcome)
    requires
        w matches WaitOutcome::Signaled(n) ==> 0 <= n <= i32::MAX - 128,
    ensures
        exit_status_of(w).wf(),
{
}

/// What the first, non-blocking wait on the child found.
pub enum WaitProbe {
    /// The child has not terminated yet.
    StillAlive,
    /// The child already terminated with this outcome.
    Done(WaitOutcome),
}

/// What the reaper must do after the probe.
pub enum ReapAction {
    /// Send the child a hangup signal, then wait for it, blocking.
    SignalHangupThenWait,
    /// The child is already reaped; this is its report.
    AlreadyDone(ExitStatus),
}

/// Decide how to reap the child once the I/O pump has stopped: if the
/// non-blocking wait finds it still running it must be hung up and then
/// waited for (so the driver never finishes before the child is reaped);
/// if it already terminated, its status maps directly to the exit report.
pub fn reap_decision(probe: WaitProbe) -> (r: ReapAction)
    requires
        probe matches WaitProbe::Done(WaitOutcome::Signaled(n)) ==> 0 <= n <= i32::MAX - 128,
    ensures
        probe is StillAlive <==> r is SignalHangupThenWait,
        probe matches WaitProbe::Done(w) ==> r == ReapAction::AlreadyDone(exit_status_of(w)),
{
    match probe {
        WaitProbe::StillAlive => ReapAction::SignalHangupThenWait,
        WaitProbe::Done(w) => ReapAction::AlreadyDone(parse_exit_status(w)),
    }
}

/// The tri-state result of one non-blocking read or write on the master
/// descriptor: bytes were transferred, the peer is gone (EOF on read, a
/// refused write), or the call would block.
pub enum IoTri {
    Bytes(usize),
    Closed,
    WouldBlock,
}

/// What the pump does next after one I/O result inside a readiness pass.
pub enum PumpStep {
    /// Forward the `n` bytes just read onto the output channel and read
    /// again.
    Forward(usize),
    /// Keep draining: bytes were accepted but more remain pending.
    Again,
    /// The descriptor was observed to block: clear the readiness guard
    /// and re-arm.  Only a would-block result earns this step; clearing
    /// after a successful operation could lose the edge and stall the
    /// pump.
    Suspend,
    /// The pending buffer is empty: stop this pass, leaving the readiness
    /// guard armed (the descriptor was never seen to block).
    Drained,
    /// The peer is gone: the pump resolves cleanly.
    Finish,
}

/// The write side of the PTY driver: bytes queued by clients that the
/// master descriptor has not yet accepted.  The driver enables its
/// writable branch only while `has_pending` holds.
pub struct PtyWriter {
    pub pending: Vec<u8>,
}

impl PtyWriter {
    pub fn new() -> (r: PtyWriter)
        ensures
            r.pending@ =~= Seq::<u8>::empty(),
    {
        PtyWriter { pending: Vec::new() }
    }

    pub fn has_pending(&self) -> (r: bool)
        ensures
            r == (self.pending@.len() != 0),
    {
        self.pending.len() != 0
    }

    /// Queue a chunk arriving on the input channel behind what is already
    /// pending, so each command's bytes reach the PTY as a contiguous run
    /// in arrival order.
    pub fn queue(&mut self, data: &[u8])
        ensures
            final(self).pending@ == old(self).pending@ + data@,
    {
        let mut i: usize = 0;
        while i < data.len()
            invariant
                i <= data@.len(),
                self.pending@ == old(self).pending@ + data@.subrange(0, i as int),
            decreases data@.len() - i,
        {
            self.pending.push(data[i]);
            i = i + 1;
            assert(old(self).pending@ + data@.subrange(0, i as int) =~= (old(
                self,
            ).pending@ + data@.subrange(0, i - 1)).push(data@[i - 1]));
        }
        assert(data@.subrange(0, data@.len() as int) =~= data@);
    }

    /// Act on one receive from the input channel: a chunk is queued
    /// behind the pending bytes; a closed channel signals shutdown intent
    /// and finishes the pump cleanly.
    pub fn on_input(&mut self, received: Option<&[u8]>) -> (finish: bool)
        ensures
            match received {
                Some(data) => !finish && final(self).pending@ == old(self).pending@ + data@,
                None => finish && *final(self) == *old(self),
            },
    {
        match received {
            Some(data) => {
                self.queue(data);
                false
            },
            None => true,
        }
    }

    /// Act on one write result: `n` accepted bytes leave the front of the
    /// pending buffer, and the pass goes on until it is empty (`Drained`,
    /// which keeps the readiness guard armed); a closed peer finishes the
    /// pump; only a would-block result clears the guard and suspends until
    /// the next writable edge.
    pub fn on_write_result(&mut self, result: IoTri) -> (step: PumpStep)
        requires
            result matches IoTri::Bytes(n) ==> 1 <= n <= old(self).pending@.len(),
        ensures
            match result {
                IoTri::Bytes(n) => {
                    &&& final(self).pending@ == old(self).pending@.skip(n as int)
                    &&& step == (if final(self).pending@.len() == 0 {
                        PumpStep::Drained
                    } else {
                        PumpStep::Again
                    })
                },
                IoTri::Closed => step is Finish && *final(self) == *old(self),
                IoTri::WouldBlock => step is Suspend && *final(self) == *old(self),
            },
    {
        match result {
            IoTri::Bytes(n) => {
                let rest = self.pending.split_off(n);
                self.pending = rest;
                assert(old(self).pending@.subrange(
                    n as int,
                    old(self).pending@.len() as int,
                ) =~= old(self).pending@.skip(n as int));
                if self.pending.len() == 0 {
                    PumpStep::Drained
                } else {
                    PumpStep::Again
                }
            },
            IoTri::Closed => PumpStep::Finish,
            IoTri::WouldBlock => PumpStep::Suspend,
        }
    }

    /// Act on one read result from the master: a positive count is
    /// forwarded and reading continues, EOF finishes the pump, and
    /// would-block clears the readiness edge.
    pub fn on_read_result(result: IoTri) -> (step: PumpStep)
        ensures
            match result {
                IoTri::Bytes(n) => step == (if n == 0 {
                    PumpStep::Finish
                } else {
                    PumpStep::Forward(n)
                }),
                IoTri::Closed => step is Finish,
                IoTri::WouldBlock => step is Suspend,
            },
    {
        match result {
            IoTri::Bytes(n) => {
                if n == 0 {
                    PumpStep::Finish
                } else {
                    PumpStep::Forward(n)
                }
            },
            IoTri::Closed => PumpStep::Finish,
            IoTri::WouldBlock => PumpStep::Suspend,
        }
    }
}

} // verus!
