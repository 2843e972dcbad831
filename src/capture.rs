use vstd::prelude::*;

use crate::error::SnifferError;
use crate::frame::{decode_frame, frame_of, EthernetFrame};

verus! {

/// Where the capture loop stands. `Draining` means that shutdown has been
/// decided and the channel is still to be released.
#[derive(Debug, Clone, Copy, PartialEq, Eq, Structural)]
pub enum LoopPhase {
    Running,
    Draining,
    Terminated,
}

/// What the driver of the loop must do next.
#[derive(Debug, Clone, Copy, PartialEq, Eq, Structural)]
pub enum LoopStep {
    /// Perform one blocking receive and hand its outcome to `on_receive`.
    Receive,
    /// Release the capture channel.
    ReleaseChannel,
    /// Leave the loop with success.
    Finish,
}

/// What one receive outcome asks the driver to report.
pub enum LoopReport<'a> {
    /// A decoded frame.
    Frame(EthernetFrame<'a>),
    /// A recoverable failure: the loop goes on.
    Problem(SnifferError),
    /// Nothing to report.
    Quiet,
}

/// The phase that follows a poll and the step it commands, given whether
/// the shutdown flag is set.
pub open spec fn poll_spec(phase: LoopPhase, stop_requested: bool) -> (LoopPhase, LoopStep) {
    match phase {
        LoopPhase::Running => if stop_requested {
            (LoopPhase::Terminated, LoopStep::ReleaseChannel)
        } else {
            (LoopPhase::Running, LoopStep::Receive)
        },
        LoopPhase::Draining => (LoopPhase::Terminated, LoopStep::ReleaseChannel),
        LoopPhase::Terminated => (LoopPhase::Terminated, LoopStep::Finish),
    }
}

/// The phase after a receive outcome: a failed receive while the shutdown
/// flag is set moves a running loop to `Draining`; anything else keeps it.
pub open spec fn after_receive(phase: LoopPhase, failed: bool, stop_requested: bool) -> LoopPhase {
    if phase == LoopPhase::Running && failed && stop_requested {
        LoopPhase::Draining
    } else {
        phase
    }
}

/// The report owed for a receive outcome.
pub open spec fn report_of(outcome: Result<&[u8], String>, stop_requested: bool, r: LoopReport) -> bool {
    match outcome {
        Ok(buf) => if buf@.len() >= 14 {
            r matches LoopReport::Frame(f) && frame_of(f, buf@)
        } else {
            r matches LoopReport::Problem(SnifferError::FrameParseFailed)
        },
        Err(detail) => if stop_requested {
            r matches LoopReport::Quiet
        } else {
            r matches LoopReport::Problem(SnifferError::PacketReadFailed(d)) && d@ == detail@
        },
    }
}

/// The decisions of the capture loop. The driver reads the shutdown flag,
/// asks `poll` for the next step, performs it, and hands each receive
/// outcome to `on_receive`, reading the flag again after the receive
/// returned. Shutdown latency is thus one pending receive at most.
pub struct CaptureLoop {
    phase: LoopPhase,
}

impl View for CaptureLoop {
    type V = LoopPhase;

    closed spec fn view(&self) -> LoopPhase {
        self.phase
    }
}

impl CaptureLoop {
    /// A loop whose channel is open and which is running.
    pub fn new() -> (r: CaptureLoop)
        ensures
            r@ == LoopPhase::Running,
    {
        CaptureLoop { phase: LoopPhase::Running }
    }

    pub fn phase(&self) -> (r: LoopPhase)
        ensures
            r == self@,
    {
        self.phase
    }

    /// Decides the next step from the shutdown flag.
    pub fn poll(&mut self, stop_requested: bool) -> (r: LoopStep)
        ensures
            (final(self)@, r) == poll_spec(old(self)@, stop_requested),
    {
        match self.phase {
            LoopPhase::Running => if stop_requested {
                self.phase = LoopPhase::Terminated;
                LoopStep::ReleaseChannel
            } else {
                LoopStep::Receive
            },
            LoopPhase::Draining => {
                self.phase = LoopPhase::Terminated;
                LoopStep::ReleaseChannel
            },
            LoopPhase::Terminated => LoopStep::Finish,
        }
    }

    /// Turns the outcome of one blocking receive into a report: a decoded
    /// frame, `FrameParseFailed` for a short buffer, `PacketReadFailed` for a
    /// read error while running, and silence for a read error after the
    /// shutdown flag was set, which the interrupt itself may have caused.
    pub fn on_receive<'a>(&mut self, outcome: Result<&'a [u8], String>, stop_requested: bool) -> (r:
        LoopReport<'a>)
        ensures
            final(self)@ == after_receive(old(self)@, outcome is Err, stop_requested),
            report_of(outcome, stop_requested, r),
    {
        match outcome {
            Ok(buf) => match decode_frame(buf) {
                Some(f) => LoopReport::Frame(f),
                None => LoopReport::Problem(SnifferError::FrameParseFailed),
            },
            Err(detail) => if stop_requested {
                if self.phase == LoopPhase::Running {
                    self.phase = LoopPhase::Draining;
                }
                LoopReport::Quiet
            } else {
                LoopReport::Problem(SnifferError::PacketReadFailed(detail))
            },
        }
    }
}

/// The steps that `n` polls command from `phase` while the shutdown flag stays set.
pub open spec fn steps_while_stopping(phase: LoopPhase, n: nat) -> Seq<LoopStep>
    decreases n,
{
    if n == 0 {
        Seq::empty()
    } else {
        let (next, step) = poll_spec(phase, true);
        seq![step] + steps_while_stopping(next, (n - 1) as nat)
    }
}

/// Once the shutdown flag is set, a loop that has not terminated commands no
/// further receive: its next step releases the channel, and every later step
/// finishes. So the channel is released exactly once, after at most the one
/// receive that was already under way.
pub proof fn lemma_shutdown_releases_once(phase: LoopPhase, n: nat)
    requires
        phase != LoopPhase::Terminated,
        n >= 1,
    ensures
        steps_while_stopping(phase, n).len() == n,
        steps_while_stopping(phase, n)[0] == LoopStep::ReleaseChannel,
        forall|i: int| 1 <= i < n ==> #[trigger] steps_while_stopping(phase, n)[i] == LoopStep::Finish,
{
    lemma_terminated_finishes((n - 1) as nat);
}

proof fn lemma_terminated_finishes(n: nat)
    ensures
        steps_while_stopping(LoopPhase::Terminated, n).len() == n,
        forall|i: int| 0 <= i < n ==> #[trigger] steps_while_stopping(LoopPhase::Terminated, n)[i]
            == LoopStep::Finish,
    decreases n,
{
    if n > 0 {
        lemma_terminated_finishes((n - 1) as nat);
    }
}

/// A receive, whatever its outcome, never terminates a running loop: the
/// channel is still released afterwards. A read error while the flag is
/// clear keeps the loop running, so the next poll receives again.
pub proof fn lemma_receive_keeps_release_pending(failed: bool, stop_requested: bool)
    ensures
        after_receive(LoopPhase::Running, failed, stop_requested) != LoopPhase::Terminated,
        !stop_requested ==> poll_spec(after_receive(LoopPhase::Running, failed, stop_requested), false).1
            == LoopStep::Receive,
        stop_requested ==> poll_spec(after_receive(LoopPhase::Running, failed, stop_requested), true).1
            == LoopStep::ReleaseChannel,
{
}

} // verus!
