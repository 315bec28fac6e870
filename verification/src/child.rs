//! The child's side of the launch.
//!
//! The child is created before anything is counted and must not run the
//! command before the parent says so. It waits for the go byte, takes the
//! time, sends the time to the parent and only then turns into the command.
//! As with the run itself, the steps are decided here and performed by the
//! caller.

use crate::error::{OsError, Stage, StatError};
use crate::handshake::{accept_go, GO_LEN, NOT_LAUNCHED};
use vstd::prelude::*;

verus! {

/// Where the child stands.
#[derive(Debug, Copy, Clone, PartialEq, Eq, Structural)]
pub enum ChildPhase {
    /// Waiting for the go byte.
    AwaitingGo,
    /// Released; the time is to be taken.
    Stamping,
    /// The time is taken and to be sent.
    Sending { nanos: u128 },
    /// The time is sent; the command is to be run.
    Launching,
    /// The child gives up without running the command.
    Failed(StatError),
}

/// What came of the child's step that was due.
#[derive(Debug, Copy, Clone, PartialEq, Eq, Structural)]
pub enum ChildEvent {
    /// The go pipe delivered `nread` bytes.
    GoRead { nread: usize },
    /// The clock showed `nanos` nanoseconds since the origin that parent
    /// and child share.
    Clock { nanos: u128 },
    /// The start time was written and flushed, and the pipe closed.
    StartTimeSent,
    /// The operating system refused the step. For the last step this is
    /// the only event there is: a command that runs does not report back.
    Refused { error: OsError },
}

/// The child's step that is due.
#[derive(Debug, Copy, Clone, PartialEq, Eq, Structural)]
pub enum ChildAction {
    /// Read the go byte from the parent; this blocks until the parent
    /// has started every counter.
    ReadGo,
    /// Read the clock.
    TakeTime,
    /// Send the bytes of `nanos` to the parent, flush, and close the pipe.
    SendStartTime { nanos: u128 },
    /// Turn into the command.
    Exec,
    /// End the process with `status`, for the reason given.
    Exit { status: i32, error: StatError },
}

impl ChildPhase {
    /// The step that is due.
    pub open spec fn spec_pending(self) -> ChildAction {
        match self {
            ChildPhase::AwaitingGo => ChildAction::ReadGo,
            ChildPhase::Stamping => ChildAction::TakeTime,
            ChildPhase::Sending { nanos } => ChildAction::SendStartTime { nanos },
            ChildPhase::Launching => ChildAction::Exec,
            ChildPhase::Failed(error) => ChildAction::Exit { status: NOT_LAUNCHED, error },
        }
    }

    /// The child after `event`. One byte on the go pipe releases it, any
    /// other count ends it; a refusal ends it with the step that was
    /// refused, any other event out of turn ends it too; and a child that
    /// has given up stays so.
    pub open spec fn after(self, event: ChildEvent) -> ChildPhase {
        match self {
            ChildPhase::Failed(_) => self,
            ChildPhase::AwaitingGo => match event {
                ChildEvent::GoRead { nread } => if nread == GO_LEN {
                    ChildPhase::Stamping
                } else {
                    ChildPhase::Failed(StatError::Handshake { expected: GO_LEN, got: nread })
                },
                ChildEvent::Refused { error } => ChildPhase::Failed(
                    StatError::Refused { stage: Stage::SignalGo, error },
                ),
                _ => ChildPhase::Failed(StatError::OutOfTurn),
            },
            ChildPhase::Stamping => match event {
                ChildEvent::Clock { nanos } => ChildPhase::Sending { nanos },
                _ => ChildPhase::Failed(StatError::OutOfTurn),
            },
            ChildPhase::Sending { .. } => match event {
                ChildEvent::StartTimeSent => ChildPhase::Launching,
                ChildEvent::Refused { error } => ChildPhase::Failed(
                    StatError::Refused { stage: Stage::ReadStartTime, error },
                ),
                _ => ChildPhase::Failed(StatError::OutOfTurn),
            },
            ChildPhase::Launching => match event {
                ChildEvent::Refused { error } => ChildPhase::Failed(
                    StatError::Refused { stage: Stage::Exec, error },
                ),
                _ => ChildPhase::Failed(StatError::OutOfTurn),
            },
        }
    }

    /// The child after each of `events` in turn.
    pub open spec fn after_all(self, events: Seq<ChildEvent>) -> ChildPhase
        decreases events.len(),
    {
        if events.len() == 0 {
            self
        } else {
            self.after_all(events.drop_last()).after(events.last())
        }
    }

    /// A child that has just been created.
    pub fn new() -> (phase: ChildPhase)
        ensures
            phase == ChildPhase::AwaitingGo,
    {
        ChildPhase::AwaitingGo
    }

    /// The step that is due.
    pub fn pending(&self) -> (action: ChildAction)
        ensures
            action == self.spec_pending(),
    {
        match self {
            ChildPhase::AwaitingGo => ChildAction::ReadGo,
            ChildPhase::Stamping => ChildAction::TakeTime,
            ChildPhase::Sending { nanos } => ChildAction::SendStartTime { nanos: *nanos },
            ChildPhase::Launching => ChildAction::Exec,
            ChildPhase::Failed(error) => ChildAction::Exit { status: NOT_LAUNCHED, error: *error },
        }
    }

    /// Takes in what came of the step that was due, and says which step is
    /// due next.
    pub fn step(self, event: ChildEvent) -> (next: (ChildPhase, ChildAction))
        ensures
            next.0 == self.after(event),
            next.1 == next.0.spec_pending(),
    {
        let phase = match self {
            ChildPhase::Failed(_) => self,
            ChildPhase::AwaitingGo => match event {
                ChildEvent::GoRead { nread } => match accept_go(nread) {
                    Ok(_) => ChildPhase::Stamping,
                    Err(error) => ChildPhase::Failed(error),
                },
                ChildEvent::Refused { error } => ChildPhase::Failed(
                    StatError::Refused { stage: Stage::SignalGo, error },
                ),
                _ => ChildPhase::Failed(StatError::OutOfTurn),
            },
            ChildPhase::Stamping => match event {
                ChildEvent::Clock { nanos } => ChildPhase::Sending { nanos },
                _ => ChildPhase::Failed(StatError::OutOfTurn),
            },
            ChildPhase::Sending { .. } => match event {
                ChildEvent::StartTimeSent => ChildPhase::Launching,
                ChildEvent::Refused { error } => ChildPhase::Failed(
                    StatError::Refused { stage: Stage::ReadStartTime, error },
                ),
                _ => ChildPhase::Failed(StatError::OutOfTurn),
            },
            ChildPhase::Launching => match event {
                ChildEvent::Refused { error } => ChildPhase::Failed(
                    StatError::Refused { stage: Stage::Exec, error },
                ),
                _ => ChildPhase::Failed(StatError::OutOfTurn),
            },
        };
        let action = phase.pending();
        (phase, action)
    }
}

/// After `n` events a new child is at its `n`-th step or has given up, and
/// after more than three it has given up.
proof fn lemma_child_progress(events: Seq<ChildEvent>)
    ensures
        ({
            let phase = ChildPhase::AwaitingGo.after_all(events);
            ||| phase is Failed
            ||| events.len() == 0 && phase == ChildPhase::AwaitingGo
            ||| events.len() == 1 && phase == ChildPhase::Stamping && events[0]
                == (ChildEvent::GoRead { nread: GO_LEN })
            ||| events.len() == 2 && events[0] == (ChildEvent::GoRead { nread: GO_LEN })
                && events[1] is Clock && phase == (ChildPhase::Sending {
                nanos: events[1]->nanos,
            })
            ||| events.len() == 3 && events[0] == (ChildEvent::GoRead { nread: GO_LEN })
                && events[1] is Clock && events[2] == ChildEvent::StartTimeSent && phase
                == ChildPhase::Launching
        }),
    decreases events.len(),
{
    if events.len() > 0 {
        lemma_child_progress(events.drop_last());
        let before = events.drop_last();
        assert(forall|i: int| 0 <= i < before.len() ==> before[i] == events[i]);
    }
}

/// The command is run only by a child that was released by exactly one go
/// byte, then took the time, then sent it: nothing else leads there.
pub proof fn lemma_exec_after_handshake(events: Seq<ChildEvent>)
    requires
        ChildPhase::AwaitingGo.after_all(events).spec_pending() == ChildAction::Exec,
    ensures
        events.len() == 3,
        events[0] == (ChildEvent::GoRead { nread: 1 }),
        events[1] is Clock,
        events[2] == ChildEvent::StartTimeSent,
{
    lemma_child_progress(events);
}

/// The time that the child sends is the time it took after the go byte:
/// whenever a start time is due to be sent, it is the clock's answer to the
/// child's second step.
pub proof fn lemma_time_after_go(events: Seq<ChildEvent>, nanos: u128)
    requires
        ChildPhase::AwaitingGo.after_all(events).spec_pending() == (ChildAction::SendStartTime {
            nanos,
        }),
    ensures
        events.len() == 2,
        events[0] == (ChildEvent::GoRead { nread: 1 }),
        events[1] == (ChildEvent::Clock { nanos }),
{
    lemma_child_progress(events);
}

/// A go of any length but one byte ends the child before it runs anything,
/// with the status by which the parent knows.
pub proof fn lemma_go_exact(nread: usize)
    requires
        nread != 1,
    ensures
        ChildPhase::AwaitingGo.after(ChildEvent::GoRead { nread }) == ChildPhase::Failed(
            StatError::Handshake { expected: 1, got: nread },
        ),
        ChildPhase::AwaitingGo.after(ChildEvent::GoRead { nread }).spec_pending() == (
        ChildAction::Exit {
            status: NOT_LAUNCHED,
            error: StatError::Handshake { expected: 1, got: nread },
        }),
{
}

/// A child that has given up never runs the command.
pub proof fn lemma_failed_child_stays(error: StatError, events: Seq<ChildEvent>)
    ensures
        ChildPhase::Failed(error).after_all(events) == ChildPhase::Failed(error),
    decreases events.len(),
{
    if events.len() > 0 {
        lemma_failed_child_stays(error, events.drop_last());
    }
}

} // verus!
