//! The run of one measurement, as a state machine.
//!
//! A run launches the command in a child that waits on a pipe, opens and
//! starts every counter on the child, releases the child, learns from it when
//! it started, waits for its end, stops every counter and reports. The run
//! itself touches neither processes nor pipes nor the kernel: it says which
//! step is due ([`Action`]), its caller performs the step and tells what came
//! of it ([`RunEvent`]), and the run decides what follows. The order of the
//! steps is the point: no counted event is missed, and nothing is reported
//! that the run cannot vouch for.

use crate::counter::{events_of, fresh_counters, resolve, resolve_events, Counter, CounterState};
use crate::error::{OsError, Stage, StatError};
use crate::event::StatEvent;
use crate::handshake::{accept_start_time, le_value, NOT_LAUNCHED, START_TIME_LEN};
use crate::report::{line_of, lines_of, Report, ReportLine};
use crate::text::texts;
use vstd::prelude::*;

verus! {

/// Where a run stands. Phases on a counter carry the position of the
/// counter that is next.
#[derive(Debug, Copy, Clone, PartialEq, Eq, Structural)]
pub enum Phase {
    /// Nothing has happened; the child is to be launched.
    Idle,
    /// The child waits on the go pipe; counters are being opened.
    Opening(usize),
    /// Every counter is open; counters are being started.
    Starting(usize),
    /// Every counter counts; the child is to be released.
    Releasing,
    /// The child is released; its start time is awaited.
    AwaitingStartTime,
    /// The start time is known; the child's end is awaited.
    AwaitingExit,
    /// The child has ended; counters are being stopped.
    Stopping(usize),
    /// Every counter is stopped; the report is ready.
    Finished,
    /// The run was abandoned.
    Failed(StatError),
}

/// What came of the step that was due.
#[derive(Debug, Copy, Clone)]
pub enum RunEvent {
    /// The child was created and waits on the go pipe.
    Launched { pid: i32 },
    /// The kernel opened the counter.
    CounterOpened,
    /// The counter counts; `value` is its reading at that moment.
    CounterStarted { value: isize },
    /// The go byte was written and flushed.
    GoSent,
    /// The start-time pipe delivered `nread` bytes into `bytes`.
    StartTimeRead { nread: usize, bytes: [u8; 16] },
    /// The wait returned for the process `pid`, at the time `at` on the
    /// clock that the child's start time was taken from. `code` is the
    /// status that the process exited with, or `None` if it did not exit
    /// by itself.
    ChildExited { pid: i32, at: u128, code: Option<i32> },
    /// The counter is stopped; `value` is its last reading.
    CounterStopped { value: isize },
    /// The operating system refused the step.
    Refused { error: OsError },
}

/// The step that is due.
#[derive(Debug, Copy, Clone, PartialEq, Eq, Structural)]
pub enum Action {
    /// Take the time origin, create both pipes and the child; the child
    /// waits for the go byte before anything else.
    Launch,
    /// Open the counter at `index`, for `event` on the process `pid`.
    OpenCounter { index: usize, event: StatEvent, pid: i32 },
    /// Start the counter at `index` and read it.
    StartCounter { index: usize },
    /// Write the go byte to the child and flush.
    SignalGo,
    /// Read the start time from the child.
    ReadStartTime,
    /// Wait for the end of the process `pid`, then take the time.
    WaitChild { pid: i32 },
    /// Stop the counter at `index` and read it.
    StopCounter { index: usize },
    /// Nothing more: the report is ready.
    Report,
    /// Nothing more: the run was abandoned for the reason given.
    Abort(StatError),
}

/// The state of a run as plain mathematics.
#[verifier::ext_equal]
pub struct RunModel {
    /// The command and its arguments.
    pub command: Seq<Seq<char>>,
    /// The events that are counted, in report order.
    pub events: Seq<StatEvent>,
    pub phase: Phase,
    /// The child, from the launch on.
    pub pid: i32,
    /// One counter per event, from the launch on.
    pub counters: Seq<Counter>,
    /// When the child started, from `AwaitingExit` on.
    pub start_time: u128,
    /// When the child was found ended, from `Stopping` on.
    pub stop_time: u128,
    /// Whether the child is taken to have run the command, from `Stopping`
    /// on: it is, unless it exited with `NOT_LAUNCHED`.
    pub launched: bool,
}

impl RunModel {
    /// A run that has not begun: it will count `requested`, or the default
    /// events where `requested` is empty, while `command` runs.
    pub open spec fn initial(requested: Seq<StatEvent>, command: Seq<Seq<char>>) -> RunModel {
        RunModel {
            command,
            events: resolve(requested),
            phase: Phase::Idle,
            pid: 0,
            counters: Seq::<Counter>::empty(),
            start_time: 0,
            stop_time: 0,
            launched: false,
        }
    }

    /// The run, abandoned for `error`.
    pub open spec fn failed(self, error: StatError) -> RunModel {
        RunModel { phase: Phase::Failed(error), ..self }
    }

    /// Whether the counter at `i` is the last one.
    pub open spec fn is_last(self, i: usize) -> bool {
        i + 1 >= self.counters.len()
    }

    /// The nanoseconds between the child's start and its end.
    pub open spec fn elapsed(self) -> u128 {
        (self.stop_time - self.start_time) as u128
    }

    /// The lines of the report, one per counter, in the order of the
    /// counters.
    pub open spec fn report_lines(self) -> Seq<ReportLine> {
        lines_of(self.counters, self.elapsed())
    }

    /// The step that is due.
    pub open spec fn pending(self) -> Action {
        match self.phase {
            Phase::Idle => Action::Launch,
            Phase::Opening(i) => Action::OpenCounter {
                index: i,
                event: self.counters[i as int].event,
                pid: self.pid,
            },
            Phase::Starting(i) => Action::StartCounter { index: i },
            Phase::Releasing => Action::SignalGo,
            Phase::AwaitingStartTime => Action::ReadStartTime,
            Phase::AwaitingExit => Action::WaitChild { pid: self.pid },
            Phase::Stopping(i) => Action::StopCounter { index: i },
            Phase::Finished => Action::Report,
            Phase::Failed(error) => Action::Abort(error),
        }
    }

    /// After the launch gave the process `pid`: a child has a positive id,
    /// and every event gets its counter on it.
    pub open spec fn launched_as(self, pid: i32) -> RunModel {
        if pid > 0 {
            RunModel {
                phase: Phase::Opening(0),
                pid,
                counters: fresh_counters(self.events, pid),
                ..self
            }
        } else {
            self.failed(StatError::InvalidChild { pid })
        }
    }

    /// After the counter at `i` was opened.
    pub open spec fn opened(self, i: usize) -> RunModel {
        RunModel {
            phase: if self.is_last(i) {
                Phase::Starting(0)
            } else {
                Phase::Opening((i + 1) as usize)
            },
            counters: self.counters.update(i as int, self.counters[i as int].spec_opened()),
            ..self
        }
    }

    /// After the counter at `i` was started and read `value`.
    pub open spec fn started(self, i: usize, value: isize) -> RunModel {
        RunModel {
            phase: if self.is_last(i) {
                Phase::Releasing
            } else {
                Phase::Starting((i + 1) as usize)
            },
            counters: self.counters.update(i as int, self.counters[i as int].spec_started(value)),
            ..self
        }
    }

    /// After the start-time pipe delivered `nread` bytes: sixteen carry the
    /// time, any other count ends the run.
    pub open spec fn timed(self, nread: usize, bytes: Seq<u8>) -> RunModel {
        if nread == START_TIME_LEN {
            RunModel { phase: Phase::AwaitingExit, start_time: le_value(bytes) as u128, ..self }
        } else {
            self.failed(StatError::Handshake { expected: START_TIME_LEN, got: nread })
        }
    }

    /// After the wait returned for `pid` at the time `at`: the process must
    /// be the child, and the time must lie after the child's start. A child
    /// that exited with `NOT_LAUNCHED` is taken as one that never ran the
    /// command, whether or not that is how the status came about; the
    /// counters are still stopped and reported, and the report says so.
    pub open spec fn exited(self, pid: i32, at: u128, code: Option<i32>) -> RunModel {
        if pid != self.pid {
            self.failed(StatError::WrongChild { child: self.pid, waited: pid })
        } else if at <= self.start_time {
            self.failed(StatError::ClockRegressed { start: self.start_time, stop: at })
        } else {
            RunModel {
                phase: Phase::Stopping(0),
                stop_time: at,
                launched: code != Some(NOT_LAUNCHED),
                ..self
            }
        }
    }

    /// After the counter at `i` was stopped and read `value`: a reading
    /// below the one at the start ends the run.
    pub open spec fn stopped(self, i: usize, value: isize) -> RunModel {
        let c = self.counters[i as int].spec_stopped(value);
        if c.settled() {
            RunModel {
                phase: if self.is_last(i) {
                    Phase::Finished
                } else {
                    Phase::Stopping((i + 1) as usize)
                },
                counters: self.counters.update(i as int, c),
                ..self
            }
        } else {
            self.failed(StatError::CounterRegressed { index: i })
        }
    }

    /// The run after `event`. Each phase awaits one kind of event; a
    /// refusal by the operating system ends the run with the step that was
    /// refused, any other event ends it as out of turn, and a run that is
    /// finished or abandoned stays as it is.
    pub open spec fn after(self, event: RunEvent) -> RunModel {
        match self.phase {
            Phase::Finished | Phase::Failed(_) => self,
            Phase::Idle => match event {
                RunEvent::Launched { pid } => self.launched_as(pid),
                RunEvent::Refused { error } => self.failed(
                    StatError::Refused { stage: Stage::Launch, error },
                ),
                _ => self.failed(StatError::OutOfTurn),
            },
            Phase::Opening(i) => match event {
                RunEvent::CounterOpened => self.opened(i),
                RunEvent::Refused { error } => self.failed(
                    StatError::Refused { stage: Stage::OpenCounter(i), error },
                ),
                _ => self.failed(StatError::OutOfTurn),
            },
            Phase::Starting(i) => match event {
                RunEvent::CounterStarted { value } => self.started(i, value),
                RunEvent::Refused { error } => self.failed(
                    StatError::Refused { stage: Stage::StartCounter(i), error },
                ),
                _ => self.failed(StatError::OutOfTurn),
            },
            Phase::Releasing => match event {
                RunEvent::GoSent => RunModel { phase: Phase::AwaitingStartTime, ..self },
                RunEvent::Refused { error } => self.failed(
                    StatError::Refused { stage: Stage::SignalGo, error },
                ),
                _ => self.failed(StatError::OutOfTurn),
            },
            Phase::AwaitingStartTime => match event {
                RunEvent::StartTimeRead { nread, bytes } => self.timed(nread, bytes@),
                RunEvent::Refused { error } => self.failed(
                    StatError::Refused { stage: Stage::ReadStartTime, error },
                ),
                _ => self.failed(StatError::OutOfTurn),
            },
            Phase::AwaitingExit => match event {
                RunEvent::ChildExited { pid, at, code } => self.exited(pid, at, code),
                RunEvent::Refused { error } => self.failed(
                    StatError::Refused { stage: Stage::WaitChild, error },
                ),
                _ => self.failed(StatError::OutOfTurn),
            },
            Phase::Stopping(i) => match event {
                RunEvent::CounterStopped { value } => self.stopped(i, value),
                RunEvent::Refused { error } => self.failed(
                    StatError::Refused { stage: Stage::StopCounter(i), error },
                ),
                _ => self.failed(StatError::OutOfTurn),
            },
        }
    }

    /// How many steps of the run are done: the launch, then one step per
    /// counter to open it and one to start it, the go, the start time, the
    /// wait, and one step per counter to stop it.
    pub open spec fn progress(self) -> nat {
        let n = self.events.len();
        match self.phase {
            Phase::Idle | Phase::Failed(_) => 0,
            Phase::Opening(i) => 1 + i as nat,
            Phase::Starting(i) => 1 + n + i as nat,
            Phase::Releasing => 1 + 2 * n,
            Phase::AwaitingStartTime => 2 + 2 * n,
            Phase::AwaitingExit => 3 + 2 * n,
            Phase::Stopping(i) => 4 + 2 * n + i as nat,
            Phase::Finished => 4 + 3 * n,
        }
    }

    /// The run after each of `events` in turn.
    pub open spec fn after_all(self, events: Seq<RunEvent>) -> RunModel
        decreases events.len(),
    {
        if events.len() == 0 {
            self
        } else {
            self.after_all(events.drop_last()).after(events.last())
        }
    }

    /// Whether there is a child and one counter per event on it, in the
    /// order of the events.
    pub open spec fn bound(self) -> bool {
        &&& self.pid > 0
        &&& self.counters.len() == self.events.len()
        &&& forall|j: int|
            0 <= j < self.counters.len() ==> (#[trigger] self.counters[j]).event == self.events[j]
                && self.counters[j].pid == self.pid
    }

    /// Whether the counters before position `done` are in the state
    /// `passed` and the others in the state `ahead`.
    pub open spec fn staged(self, done: int, ahead: CounterState, passed: CounterState) -> bool {
        forall|j: int|
            0 <= j < self.counters.len() ==> (#[trigger] self.counters[j]).state == (if j < done {
                passed
            } else {
                ahead
            })
    }

    /// Whether every counter before position `done` has a count to report.
    pub open spec fn settled_before(self, done: int) -> bool {
        forall|j: int| 0 <= j < done ==> (#[trigger] self.counters[j]).settled()
    }

    /// What holds of every run in every phase: there is a command and at
    /// least one event; from the launch on there is one counter per event;
    /// every counter counts before the child is released and until it has
    /// ended; and what is read for the report was checked.
    pub open spec fn valid(self) -> bool {
        &&& self.command.len() >= 1
        &&& 1 <= self.events.len() <= usize::MAX
        &&& match self.phase {
            Phase::Idle => self.counters.len() == 0,
            Phase::Opening(i) => {
                &&& self.bound()
                &&& i < self.counters.len()
                &&& self.staged(i as int, CounterState::Requested, CounterState::Open)
            },
            Phase::Starting(i) => {
                &&& self.bound()
                &&& i < self.counters.len()
                &&& self.staged(i as int, CounterState::Open, CounterState::Counting)
            },
            Phase::Releasing | Phase::AwaitingStartTime | Phase::AwaitingExit => {
                &&& self.bound()
                &&& self.staged(0, CounterState::Counting, CounterState::Counting)
            },
            Phase::Stopping(i) => {
                &&& self.bound()
                &&& i < self.counters.len()
                &&& self.staged(i as int, CounterState::Counting, CounterState::Stopped)
                &&& self.settled_before(i as int)
                &&& self.stop_time > self.start_time
            },
            Phase::Finished => {
                &&& self.bound()
                &&& self.settled_before(self.counters.len() as int)
                &&& self.stop_time > self.start_time
            },
            Phase::Failed(_) => true,
        }
    }
}

/// A run that has not begun is valid, whatever is requested, as long as
/// there is a command and the request is one that a machine can hold.
pub proof fn lemma_initial_valid(requested: Seq<StatEvent>, command: Seq<Seq<char>>)
    requires
        command.len() >= 1,
        requested.len() <= usize::MAX,
    ensures
        RunModel::initial(requested, command).valid(),
        RunModel::initial(requested, command).pending() == Action::Launch,
{
}

/// No event takes a valid run to a run that is not.
pub proof fn lemma_after_valid(s: RunModel, event: RunEvent)
    requires
        s.valid(),
    ensures
        s.after(event).valid(),
{
    let t = s.after(event);
    match s.phase {
        Phase::Idle => {
            if let RunEvent::Launched { pid } = event {
                if pid > 0 {
                    assert(t.bound());
                    assert(t.staged(0, CounterState::Requested, CounterState::Open));
                }
            }
        },
        Phase::Opening(i) => {
            if let RunEvent::CounterOpened = event {
                assert(t.bound());
                if s.is_last(i) {
                    assert(t.staged(0, CounterState::Open, CounterState::Counting));
                } else {
                    assert(t.staged(i + 1, CounterState::Requested, CounterState::Open));
                }
            }
        },
        Phase::Starting(i) => {
            if let RunEvent::CounterStarted { value } = event {
                assert(t.bound());
                if s.is_last(i) {
                    assert(t.staged(0, CounterState::Counting, CounterState::Counting));
                } else {
                    assert(t.staged(i + 1, CounterState::Open, CounterState::Counting));
                }
            }
        },
        Phase::AwaitingExit => {
            if let RunEvent::ChildExited { pid, at, code } = event {
                if pid == s.pid && at > s.start_time {
                    assert(t.staged(0, CounterState::Counting, CounterState::Stopped));
                    assert(t.settled_before(0));
                }
            }
        },
        Phase::Stopping(i) => {
            if let RunEvent::CounterStopped { value } = event {
                let c = s.counters[i as int].spec_stopped(value);
                if c.settled() {
                    assert(t.bound());
                    assert(t.settled_before(i + 1));
                    if !s.is_last(i) {
                        assert(t.staged(i + 1, CounterState::Counting, CounterState::Stopped));
                    }
                }
            }
        },
        _ => {},
    }
}

/// Whatever happens to a run, in whatever order, it stays valid and keeps
/// its command and its events.
pub proof fn lemma_every_run_valid(s: RunModel, events: Seq<RunEvent>)
    requires
        s.valid(),
    ensures
        s.after_all(events).valid(),
        s.after_all(events).command == s.command,
        s.after_all(events).events == s.events,
    decreases events.len(),
{
    if events.len() > 0 {
        lemma_every_run_valid(s, events.drop_last());
        lemma_after_valid(s.after_all(events.drop_last()), events.last());
    }
}

/// Of every run that finishes, whatever was requested and whatever happened
/// on the way: no counter reads less at its stop than at its start, the
/// stop time lies after the start time, and the report has one line per
/// counted event, in the order of the request.
pub proof fn lemma_finished_run(
    requested: Seq<StatEvent>,
    command: Seq<Seq<char>>,
    events: Seq<RunEvent>,
)
    requires
        command.len() >= 1,
        requested.len() <= usize::MAX,
        RunModel::initial(requested, command).after_all(events).phase == Phase::Finished,
    ensures
        ({
            let s = RunModel::initial(requested, command).after_all(events);
            &&& forall|i: int|
                0 <= i < s.counters.len() ==> (#[trigger] s.counters[i]).stop
                    >= s.counters[i].start
            &&& s.stop_time > s.start_time
            &&& s.report_lines().len() == resolve(requested).len()
            &&& forall|i: int|
                0 <= i < resolve(requested).len() ==> (#[trigger] s.report_lines()[i]).spec_event()
                    == resolve(requested)[i]
        }),
{
    let start = RunModel::initial(requested, command);
    let s = start.after_all(events);
    lemma_initial_valid(requested, command);
    lemma_every_run_valid(start, events);
    lemma_finished_counts(s);
    assert(s.bound());
    assert forall|i: int| 0 <= i < resolve(requested).len() implies (#[trigger] s.report_lines()[i]).spec_event()
        == resolve(requested)[i] by {
        assert(s.counters[i].event == s.events[i]);
    }
}

/// A run goes through its steps once and in order: an event either ends
/// the run or takes it exactly one step further, and nothing is ever done
/// twice or skipped.
pub proof fn lemma_one_step_at_a_time(s: RunModel, event: RunEvent)
    requires
        s.valid(),
        s.phase != Phase::Finished,
        !(s.phase is Failed),
    ensures
        s.after(event).phase is Failed || s.after(event).progress() == s.progress() + 1,
{
}

/// What was asked for stays what is measured: no event changes the command
/// or the events of a run.
pub proof fn lemma_request_fixed(s: RunModel, event: RunEvent)
    ensures
        s.after(event).command == s.command,
        s.after(event).events == s.events,
{
}

/// From the launch to the report, the counters of a run are those of its
/// events, in the same order.
pub proof fn lemma_counters_follow_events(s: RunModel)
    requires
        s.valid(),
        s.phase != Phase::Idle,
        !(s.phase is Failed),
    ensures
        events_of(s.counters) == s.events,
{
    assert(s.bound());
    assert(events_of(s.counters) =~= s.events);
}

/// The report of a finished run has one line per requested event, in the
/// order in which the events were requested, repetitions included.
pub proof fn lemma_report_order(requested: Seq<StatEvent>, s: RunModel)
    requires
        requested.len() > 0,
        s.events == resolve(requested),
        s.valid(),
        s.phase == Phase::Finished,
    ensures
        s.report_lines().len() == requested.len(),
        forall|i: int|
            0 <= i < requested.len() ==> (#[trigger] s.report_lines()[i]).spec_event()
                == requested[i],
{
    assert(s.bound());
    assert forall|i: int| 0 <= i < requested.len() implies (#[trigger] s.report_lines()[i]).spec_event()
        == requested[i] by {
        assert(s.counters[i].event == s.events[i]);
    }
}

/// In a finished run no counter reads less at its stop than at its start.
pub proof fn lemma_finished_counts(s: RunModel)
    requires
        s.valid(),
        s.phase == Phase::Finished,
    ensures
        forall|i: int|
            0 <= i < s.counters.len() ==> (#[trigger] s.counters[i]).stop >= s.counters[i].start,
{
    assert forall|i: int| 0 <= i < s.counters.len() implies (#[trigger] s.counters[i]).stop
        >= s.counters[i].start by {
        assert(s.counters[i].settled());
    }
}

/// Every line of the report of a finished run holds what its counter
/// counted, which is never below zero; and the time that the task clock is
/// set against is positive.
pub proof fn lemma_report_counts(s: RunModel)
    requires
        s.valid(),
        s.phase == Phase::Finished,
    ensures
        s.report_lines().len() == s.counters.len(),
        forall|i: int|
            0 <= i < s.counters.len() ==> {
                &&& (#[trigger] s.report_lines()[i]).spec_count() == s.counters[i].stop
                    - s.counters[i].start
                &&& s.report_lines()[i].spec_count() >= 0
                &&& s.report_lines()[i].spec_event() == s.counters[i].event
                &&& s.report_lines()[i] matches ReportLine::TaskClock { elapsed, .. } ==> elapsed
                    > 0
            },
{
    assert forall|i: int| 0 <= i < s.counters.len() implies {
        &&& (#[trigger] s.report_lines()[i]).spec_count() == s.counters[i].stop
            - s.counters[i].start
        &&& s.report_lines()[i].spec_count() >= 0
        &&& s.report_lines()[i].spec_event() == s.counters[i].event
        &&& s.report_lines()[i] matches ReportLine::TaskClock { elapsed, .. } ==> elapsed > 0
    } by {
        assert(s.counters[i].settled());
    }
}

/// In a finished run the stop time lies after the start time, so the time
/// that the report divides by is positive.
pub proof fn lemma_finished_clock(s: RunModel)
    requires
        s.valid(),
        s.phase == Phase::Finished,
    ensures
        s.stop_time > s.start_time,
        s.elapsed() > 0,
{
}

/// The child is released only when every counter counts: whenever the go
/// byte is due, or the child may already run, no counter is idle.
pub proof fn lemma_counting_before_go(s: RunModel)
    requires
        s.valid(),
        s.pending() == Action::SignalGo || s.pending() == Action::ReadStartTime || s.pending()
            == (Action::WaitChild { pid: s.pid }),
    ensures
        forall|i: int|
            0 <= i < s.counters.len() ==> (#[trigger] s.counters[i]).state
                == CounterState::Counting,
{
    assert(s.staged(0, CounterState::Counting, CounterState::Counting));
}

/// A start time of any length but sixteen bytes ends the run, whatever the
/// bytes are.
pub proof fn lemma_short_start_time(s: RunModel, nread: usize, bytes: [u8; 16])
    requires
        s.phase == Phase::AwaitingStartTime,
        nread != 16,
    ensures
        s.after(RunEvent::StartTimeRead { nread, bytes }).phase == Phase::Failed(
            StatError::Handshake { expected: 16, got: nread },
        ),
        s.after(RunEvent::StartTimeRead { nread, bytes }).pending() == Action::Abort(
            StatError::Handshake { expected: 16, got: nread },
        ),
{
}

/// A refusal by the kernel to open a counter ends the run at that counter:
/// nothing is retried and no report follows.
pub proof fn lemma_open_refused(s: RunModel, i: usize, error: OsError)
    requires
        s.phase == Phase::Opening(i),
    ensures
        s.after(RunEvent::Refused { error }).phase == Phase::Failed(
            StatError::Refused { stage: Stage::OpenCounter(i), error },
        ),
{
}

/// A run that is finished or abandoned stays so.
pub proof fn lemma_ended_stays(s: RunModel, event: RunEvent)
    requires
        s.phase == Phase::Finished || s.phase is Failed,
    ensures
        s.after(event) == s,
{
}

/// One measurement under way.
pub struct StatRun {
    command: Vec<String>,
    events: Vec<StatEvent>,
    phase: Phase,
    pid: i32,
    counters: Vec<Counter>,
    start_time: u128,
    stop_time: u128,
    launched: bool,
}

impl View for StatRun {
    type V = RunModel;

    closed spec fn view(&self) -> RunModel {
        RunModel {
            command: texts(self.command@),
            events: self.events@,
            phase: self.phase,
            pid: self.pid,
            counters: self.counters@,
            start_time: self.start_time,
            stop_time: self.stop_time,
            launched: self.launched,
        }
    }
}

impl StatRun {
    #[verifier::type_invariant]
    closed spec fn well_formed(self) -> bool {
        self@.valid()
    }

    /// A run that will count `requested`, or the default events where
    /// `requested` is empty, while `command` runs. The first element of
    /// `command` is the program, the others are its arguments.
    pub fn new(requested: &Vec<StatEvent>, command: Vec<String>) -> (run: StatRun)
        requires
            command@.len() >= 1,
        ensures
            run@ == RunModel::initial(requested@, texts(command@)),
            run@.valid(),
    {
        let events = resolve_events(requested);
        let count: usize = events.len();
        assert(texts(command@).len() == command@.len());
        assert(1 <= count);
        let run = StatRun {
            command,
            events,
            phase: Phase::Idle,
            pid: 0,
            counters: Vec::new(),
            start_time: 0,
            stop_time: 0,
            launched: false,
        };
        assert(run@ =~= RunModel::initial(requested@, texts(command@)));
        run
    }

    /// The step that is due.
    pub fn pending(&self) -> (action: Action)
        ensures
            action == self@.pending(),
            self@.valid(),
    {
        proof {
            use_type_invariant(self);
        }
        match self.phase {
            Phase::Idle => Action::Launch,
            Phase::Opening(i) => Action::OpenCounter {
                index: i,
                event: self.counters[i].event,
                pid: self.pid,
            },
            Phase::Starting(i) => Action::StartCounter { index: i },
            Phase::Releasing => Action::SignalGo,
            Phase::AwaitingStartTime => Action::ReadStartTime,
            Phase::AwaitingExit => Action::WaitChild { pid: self.pid },
            Phase::Stopping(i) => Action::StopCounter { index: i },
            Phase::Finished => Action::Report,
            Phase::Failed(error) => Action::Abort(error),
        }
    }

    /// Where the run stands.
    pub fn phase(&self) -> (phase: Phase)
        ensures
            phase == self@.phase,
    {
        self.phase
    }

    /// The command and its arguments.
    pub fn command(&self) -> (command: &Vec<String>)
        ensures
            texts(command@) == self@.command,
            command@.len() >= 1,
    {
        proof {
            use_type_invariant(self);
        }
        &self.command
    }

    /// The counters of the run: none before the launch, then one per event.
    pub fn counters(&self) -> (counters: &Vec<Counter>)
        ensures
            counters@ == self@.counters,
    {
        &self.counters
    }

    /// Takes in what came of the step that was due, and says which step is
    /// due next.
    pub fn step(self, event: RunEvent) -> (next: (StatRun, Action))
        ensures
            next.0@ == self@.after(event),
            next.0@.valid(),
            next.1 == next.0@.pending(),
    {
        proof {
            use_type_invariant(&self);
            lemma_after_valid(self@, event);
        }
        let ghost before = self@;
        let StatRun { command, events, phase, pid, counters, start_time, stop_time, launched } =
            self;
        let at_entry = phase;
        let mut phase = phase;
        let mut pid = pid;
        let mut counters = counters;
        let mut start_time = start_time;
        let mut stop_time = stop_time;
        let mut launched = launched;
        match at_entry {
            Phase::Finished => {},
            Phase::Failed(_) => {},
            Phase::Idle => match event {
                RunEvent::Launched { pid: child } => {
                    if child > 0 {
                        pid = child;
                        counters = Counter::counters(&events, child);
                        phase = Phase::Opening(0);
                    } else {
                        phase = Phase::Failed(StatError::InvalidChild { pid: child });
                    }
                },
                RunEvent::Refused { error } => {
                    phase = Phase::Failed(StatError::Refused { stage: Stage::Launch, error });
                },
                _ => {
                    phase = Phase::Failed(StatError::OutOfTurn);
                },
            },
            Phase::Opening(i) => match event {
                RunEvent::CounterOpened => {
                    let c = counters[i];
                    counters.set(i, c.opened());
                    phase = if i + 1 >= counters.len() {
                        Phase::Starting(0)
                    } else {
                        Phase::Opening(i + 1)
                    };
                },
                RunEvent::Refused { error } => {
                    phase = Phase::Failed(
                        StatError::Refused { stage: Stage::OpenCounter(i), error },
                    );
                },
                _ => {
                    phase = Phase::Failed(StatError::OutOfTurn);
                },
            },
            Phase::Starting(i) => match event {
                RunEvent::CounterStarted { value } => {
                    let c = counters[i];
                    counters.set(i, c.started(value));
                    phase = if i + 1 >= counters.len() {
                        Phase::Releasing
                    } else {
                        Phase::Starting(i + 1)
                    };
                },
                RunEvent::Refused { error } => {
                    phase = Phase::Failed(
                        StatError::Refused { stage: Stage::StartCounter(i), error },
                    );
                },
                _ => {
                    phase = Phase::Failed(StatError::OutOfTurn);
                },
            },
            Phase::Releasing => match event {
                RunEvent::GoSent => {
                    phase = Phase::AwaitingStartTime;
                },
                RunEvent::Refused { error } => {
                    phase = Phase::Failed(StatError::Refused { stage: Stage::SignalGo, error });
                },
                _ => {
                    phase = Phase::Failed(StatError::OutOfTurn);
                },
            },
            Phase::AwaitingStartTime => match event {
                RunEvent::StartTimeRead { nread, bytes } => {
                    match accept_start_time(nread, &bytes) {
                        Ok(nanos) => {
                            start_time = nanos;
                            phase = Phase::AwaitingExit;
                        },
                        Err(error) => {
                            phase = Phase::Failed(error);
                        },
                    }
                },
                RunEvent::Refused { error } => {
                    phase = Phase::Failed(
                        StatError::Refused { stage: Stage::ReadStartTime, error },
                    );
                },
                _ => {
                    phase = Phase::Failed(StatError::OutOfTurn);
                },
            },
            Phase::AwaitingExit => match event {
                RunEvent::ChildExited { pid: ended, at, code } => {
                    if ended != pid {
                        phase = Phase::Failed(StatError::WrongChild { child: pid, waited: ended });
                    } else if at <= start_time {
                        phase = Phase::Failed(
                            StatError::ClockRegressed { start: start_time, stop: at },
                        );
                    } else {
                        stop_time = at;
                        launched = match code {
                            Some(status) => status != NOT_LAUNCHED,
                            None => true,
                        };
                        phase = Phase::Stopping(0);
                    }
                },
                RunEvent::Refused { error } => {
                    phase = Phase::Failed(StatError::Refused { stage: Stage::WaitChild, error });
                },
                _ => {
                    phase = Phase::Failed(StatError::OutOfTurn);
                },
            },
            Phase::Stopping(i) => match event {
                RunEvent::CounterStopped { value } => {
                    let c = counters[i];
                    let stopped = c.stopped(value);
                    if stopped.delta().is_some() {
                        counters.set(i, stopped);
                        phase = if i + 1 >= counters.len() {
                            Phase::Finished
                        } else {
                            Phase::Stopping(i + 1)
                        };
                    } else {
                        phase = Phase::Failed(StatError::CounterRegressed { index: i });
                    }
                },
                RunEvent::Refused { error } => {
                    phase = Phase::Failed(
                        StatError::Refused { stage: Stage::StopCounter(i), error },
                    );
                },
                _ => {
                    phase = Phase::Failed(StatError::OutOfTurn);
                },
            },
        }
        let run = StatRun {
            command,
            events,
            phase,
            pid,
            counters,
            start_time,
            stop_time,
            launched,
        };
        assert(run@ =~= before.after(event));
        let action = run.pending();
        (run, action)
    }

    /// The report, once the run is finished: the program that was run,
    /// whether the child ran it, and one line per counter in the order of
    /// the request. `None` in every other phase: an abandoned run reports
    /// nothing.
    pub fn report(&self) -> (report: Option<Report>)
        ensures
            report is Some <==> self@.phase == Phase::Finished,
            report matches Some(r) ==> {
                &&& r.command@ == self@.command[0]
                &&& r.launched == self@.launched
                &&& r.lines@ == self@.report_lines()
            },
    {
        proof {
            use_type_invariant(self);
        }
        match self.phase {
            Phase::Finished => {
                let elapsed: u128 = self.stop_time - self.start_time;
                let mut lines: Vec<ReportLine> = Vec::new();
                let mut i: usize = 0;
                while i < self.counters.len()
                    invariant
                        i <= self.counters.len(),
                        self@.settled_before(self.counters.len() as int),
                        self@.counters == self.counters@,
                        lines@ == lines_of(self.counters@.take(i as int), elapsed),
                    decreases self.counters.len() - i,
                {
                    let c = self.counters[i];
                    assert(self@.counters[i as int].settled());
                    let delta: isize = c.stop - c.start;
                    let line = match c.event {
                        StatEvent::TaskClock => ReportLine::TaskClock { nanos: delta, elapsed },
                        _ => ReportLine::Count { event: c.event, delta },
                    };
                    assert(line == line_of(c, elapsed));
                    lines.push(line);
                    assert(lines@ =~= lines_of(self.counters@.take(i + 1), elapsed));
                    i = i + 1;
                }
                assert(self.counters@.take(self.counters.len() as int) =~= self.counters@);
                Some(Report { command: self.command[0].clone(), launched: self.launched, lines })
            },
            _ => None,
        }
    }
}

} // verus!
