//! What can end a run before its report.

use crate::text::{decimal, push_decimal, push_signed_decimal, signed_decimal};
use vstd::prelude::*;

verus! {

/// A refusal by the operating system, as the error number it gave.
#[derive(Debug, Copy, Clone, PartialEq, Eq, Structural)]
pub struct OsError {
    pub errno: i32,
}

/// A step of a run that asks something of the operating system. Steps on a
/// counter carry the counter's position in the run's list.
#[derive(Debug, Copy, Clone, PartialEq, Eq, Structural)]
pub enum Stage {
    /// Creating the pipes and the child.
    Launch,
    OpenCounter(usize),
    StartCounter(usize),
    /// Passing the go byte from the parent to the child.
    SignalGo,
    /// Passing the start time from the child to the parent.
    ReadStartTime,
    /// Turning the child into the command.
    Exec,
    WaitChild,
    StopCounter(usize),
}

/// The part of a run that a failure belongs to.
#[derive(Debug, Copy, Clone, PartialEq, Eq, Structural)]
pub enum FailureArea {
    /// A counter could not be opened, started or stopped, or read backwards.
    CounterSetup,
    /// The pipes between parent and child did not carry what they must.
    Handshake,
    /// The child could not be created or was not the process waited for.
    TargetLaunch,
    /// The caller reported something that the run was not waiting for.
    Protocol,
}

/// Why a run was abandoned. None of these is recovered from: a run that
/// cannot trust its own bookkeeping reports no numbers.
#[derive(Debug, Copy, Clone, PartialEq, Eq, Structural)]
pub enum StatError {
    /// The operating system refused the request made at `stage`.
    Refused { stage: Stage, error: OsError },
    /// A pipe delivered `got` bytes where the handshake fixes `expected`.
    Handshake { expected: usize, got: usize },
    /// The launch reported a process id that no child can have.
    InvalidChild { pid: i32 },
    /// The wait returned for a process other than the child.
    WrongChild { child: i32, waited: i32 },
    /// The stop time is not after the start time that the child sent.
    ClockRegressed { start: u128, stop: u128 },
    /// The counter at `index` read less at its stop than at its start, or
    /// so much more that the difference cannot be held.
    CounterRegressed { index: usize },
    /// An event arrived that the run was not waiting for.
    OutOfTurn,
}

impl FailureArea {
    /// The name of the part, as messages give it.
    pub open spec fn spec_name(self) -> Seq<char> {
        match self {
            FailureArea::CounterSetup => "counter setup"@,
            FailureArea::Handshake => "handshake"@,
            FailureArea::TargetLaunch => "target launch"@,
            FailureArea::Protocol => "run protocol"@,
        }
    }

    /// The name of the part, as messages give it.
    pub fn name(&self) -> (s: String)
        ensures
            s@ == self.spec_name(),
    {
        match self {
            FailureArea::CounterSetup => String::from_str("counter setup"),
            FailureArea::Handshake => String::from_str("handshake"),
            FailureArea::TargetLaunch => String::from_str("target launch"),
            FailureArea::Protocol => String::from_str("run protocol"),
        }
    }
}

impl Stage {
    /// The part of a run that the step belongs to.
    pub open spec fn spec_area(self) -> FailureArea {
        match self {
            Stage::Launch | Stage::Exec | Stage::WaitChild => FailureArea::TargetLaunch,
            Stage::OpenCounter(_) | Stage::StartCounter(_) | Stage::StopCounter(_) =>
                FailureArea::CounterSetup,
            Stage::SignalGo | Stage::ReadStartTime => FailureArea::Handshake,
        }
    }

    /// What the step does, in words.
    pub open spec fn spec_describe(self) -> Seq<char> {
        match self {
            Stage::Launch => "creating the child"@,
            Stage::OpenCounter(i) => "opening counter "@ + decimal(i as nat),
            Stage::StartCounter(i) => "starting counter "@ + decimal(i as nat),
            Stage::SignalGo => "passing the go byte"@,
            Stage::ReadStartTime => "passing the start time"@,
            Stage::Exec => "running the command"@,
            Stage::WaitChild => "waiting for the child"@,
            Stage::StopCounter(i) => "stopping counter "@ + decimal(i as nat),
        }
    }

    /// What the step does, in words.
    pub fn describe(&self) -> (s: String)
        ensures
            s@ == self.spec_describe(),
    {
        match self {
            Stage::Launch => String::from_str("creating the child"),
            Stage::OpenCounter(i) => {
                let mut s = String::from_str("opening counter ");
                push_decimal(&mut s, *i as u128);
                s
            },
            Stage::StartCounter(i) => {
                let mut s = String::from_str("starting counter ");
                push_decimal(&mut s, *i as u128);
                s
            },
            Stage::SignalGo => String::from_str("passing the go byte"),
            Stage::ReadStartTime => String::from_str("passing the start time"),
            Stage::Exec => String::from_str("running the command"),
            Stage::WaitChild => String::from_str("waiting for the child"),
            Stage::StopCounter(i) => {
                let mut s = String::from_str("stopping counter ");
                push_decimal(&mut s, *i as u128);
                s
            },
        }
    }
}

impl StatError {
    /// The part of a run that the failure belongs to.
    pub open spec fn spec_area(self) -> FailureArea {
        match self {
            StatError::Refused { stage, .. } => stage.spec_area(),
            StatError::Handshake { .. } | StatError::ClockRegressed { .. } =>
                FailureArea::Handshake,
            StatError::InvalidChild { .. } | StatError::WrongChild { .. } =>
                FailureArea::TargetLaunch,
            StatError::CounterRegressed { .. } => FailureArea::CounterSetup,
            StatError::OutOfTurn => FailureArea::Protocol,
        }
    }

    /// What went wrong, in words and numbers.
    pub open spec fn spec_detail(self) -> Seq<char> {
        match self {
            StatError::Refused { stage, error } => stage.spec_describe() + " was refused (error "@
                + signed_decimal(error.errno as int) + ")"@,
            StatError::Handshake { expected, got } => "the pipe delivered "@ + decimal(got as nat)
                + " bytes in place of "@ + decimal(expected as nat),
            StatError::InvalidChild { pid } => signed_decimal(pid as int)
                + " is no child process"@,
            StatError::WrongChild { child, waited } => "waited for process "@ + signed_decimal(
                child as int,
            ) + " and got "@ + signed_decimal(waited as int),
            StatError::ClockRegressed { start, stop } => "the child started at "@ + decimal(
                start as nat,
            ) + " ns and was found ended at "@ + decimal(stop as nat) + " ns"@,
            StatError::CounterRegressed { index } => "counter "@ + decimal(index as nat)
                + " ran backwards"@,
            StatError::OutOfTurn => "a step was reported out of turn"@,
        }
    }

    /// The message for the user: the part of the run that failed, then what
    /// went wrong.
    pub open spec fn spec_message(self) -> Seq<char> {
        self.spec_area().spec_name() + " failed: "@ + self.spec_detail()
    }

    /// What went wrong, in words and numbers.
    pub fn detail(&self) -> (s: String)
        ensures
            s@ == self.spec_detail(),
    {
        match self {
            StatError::Refused { stage, error } => {
                let mut s = stage.describe();
                s.append(" was refused (error ");
                push_signed_decimal(&mut s, error.errno as i128);
                s.append(")");
                s
            },
            StatError::Handshake { expected, got } => {
                let mut s = String::from_str("the pipe delivered ");
                push_decimal(&mut s, *got as u128);
                s.append(" bytes in place of ");
                push_decimal(&mut s, *expected as u128);
                s
            },
            StatError::InvalidChild { pid } => {
                let mut s = String::new();
                push_signed_decimal(&mut s, *pid as i128);
                s.append(" is no child process");
                assert(s@ =~= self.spec_detail());
                s
            },
            StatError::WrongChild { child, waited } => {
                let mut s = String::from_str("waited for process ");
                push_signed_decimal(&mut s, *child as i128);
                s.append(" and got ");
                push_signed_decimal(&mut s, *waited as i128);
                s
            },
            StatError::ClockRegressed { start, stop } => {
                let mut s = String::from_str("the child started at ");
                push_decimal(&mut s, *start);
                s.append(" ns and was found ended at ");
                push_decimal(&mut s, *stop);
                s.append(" ns");
                s
            },
            StatError::CounterRegressed { index } => {
                let mut s = String::from_str("counter ");
                push_decimal(&mut s, *index as u128);
                s.append(" ran backwards");
                s
            },
            StatError::OutOfTurn => String::from_str("a step was reported out of turn"),
        }
    }

    /// The message for the user: it names the part of the run that failed
    /// and says what went wrong.
    pub fn message(&self) -> (s: String)
        ensures
            s@ == self.spec_message(),
    {
        let mut s = self.area().name();
        s.append(" failed: ");
        let detail = self.detail();
        s.append(detail.as_str());
        s
    }

    /// The part of a run that the failure belongs to, for the message that
    /// tells the user which phase failed.
    pub fn area(&self) -> (a: FailureArea)
        ensures
            a == self.spec_area(),
    {
        match self {
            StatError::Refused { stage, .. } => match stage {
                Stage::Launch | Stage::Exec | Stage::WaitChild => FailureArea::TargetLaunch,
                Stage::OpenCounter(_) | Stage::StartCounter(_) | Stage::StopCounter(_) =>
                    FailureArea::CounterSetup,
                Stage::SignalGo | Stage::ReadStartTime => FailureArea::Handshake,
            },
            StatError::Handshake { .. } | StatError::ClockRegressed { .. } =>
                FailureArea::Handshake,
            StatError::InvalidChild { .. } | StatError::WrongChild { .. } =>
                FailureArea::TargetLaunch,
            StatError::CounterRegressed { .. } => FailureArea::CounterSetup,
            StatError::OutOfTurn => FailureArea::Protocol,
        }
    }
}

} // verus!
