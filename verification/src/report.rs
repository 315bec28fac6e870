//! What a finished run reports: a header that names the command, and one
//! line per counter.

use crate::counter::Counter;
use crate::event::StatEvent;
use crate::text::{push_signed_decimal, signed_decimal};
use vstd::prelude::*;

verus! {

/// One line of a report.
#[derive(Debug, Copy, Clone, PartialEq, Eq, Structural)]
pub enum ReportLine {
    /// How often `event` occurred.
    Count { event: StatEvent, delta: isize },
    /// The task clock: the nanoseconds it counted, and the nanoseconds that
    /// passed between the child's start and its end. It is shown as
    /// milliseconds and as the ratio of the two.
    TaskClock { nanos: isize, elapsed: u128 },
}

/// The report of a finished run. `launched` is false where the child exited
/// with the status `NOT_LAUNCHED`, by which a child says that it never ran
/// the command. A command that ran and exited with that very status cannot
/// be told from such a child, and its run is taken as not launched too. The
/// lines then hold what was counted, and the run must be shown as failed.
#[derive(Debug)]
pub struct Report {
    pub command: String,
    pub launched: bool,
    pub lines: Vec<ReportLine>,
}

/// The line that reports the counter `c` of a run that took `elapsed`
/// nanoseconds.
pub open spec fn line_of(c: Counter, elapsed: u128) -> ReportLine {
    if c.event == StatEvent::TaskClock {
        ReportLine::TaskClock { nanos: c.spec_delta() as isize, elapsed }
    } else {
        ReportLine::Count { event: c.event, delta: c.spec_delta() as isize }
    }
}

/// The lines that report `counters`, one each, in the order of the counters.
pub open spec fn lines_of(counters: Seq<Counter>, elapsed: u128) -> Seq<ReportLine> {
    Seq::new(counters.len(), |i: int| line_of(counters[i], elapsed))
}

/// The header of the report on `command`.
pub open spec fn header_text(command: Seq<char>) -> Seq<char> {
    "Performance counter stats for '"@ + command + ":'"@
}

/// The text of the line that reports `delta` occurrences of `event`.
pub open spec fn count_text(event: StatEvent, delta: int) -> Seq<char> {
    "Number of "@ + event.label() + ": "@ + signed_decimal(delta)
}

impl ReportLine {
    /// The event that the line reports.
    pub open spec fn spec_event(self) -> StatEvent {
        match self {
            ReportLine::Count { event, .. } => event,
            ReportLine::TaskClock { .. } => StatEvent::TaskClock,
        }
    }

    /// The number that the line reports: occurrences of its event, or
    /// nanoseconds for the task clock.
    pub open spec fn spec_count(self) -> isize {
        match self {
            ReportLine::Count { delta, .. } => delta,
            ReportLine::TaskClock { nanos, .. } => nanos,
        }
    }

    /// The text of the line, where it is a count.
    pub open spec fn spec_text(self) -> Option<Seq<char>> {
        match self {
            ReportLine::Count { event, delta } => Some(count_text(event, delta as int)),
            ReportLine::TaskClock { .. } => None,
        }
    }

    /// The event that the line reports.
    pub fn event(&self) -> (e: StatEvent)
        ensures
            e == self.spec_event(),
    {
        match self {
            ReportLine::Count { event, .. } => *event,
            ReportLine::TaskClock { .. } => StatEvent::TaskClock,
        }
    }

    /// The number that the line reports: occurrences of its event, or
    /// nanoseconds for the task clock.
    pub fn count(&self) -> (n: isize)
        ensures
            n == self.spec_count(),
    {
        match self {
            ReportLine::Count { delta, .. } => *delta,
            ReportLine::TaskClock { nanos, .. } => *nanos,
        }
    }

    /// The text of a count line: `Number of`, the event's label, a colon
    /// and the count. `None` for the task clock, whose milliseconds and
    /// ratio are fractions and are written by the caller.
    pub fn text(&self) -> (t: Option<String>)
        ensures
            t is Some <==> self.spec_text() is Some,
            t matches Some(s) ==> self.spec_text() == Some(s@),
    {
        match self {
            ReportLine::Count { event, delta } => {
                let mut s = String::from_str("Number of ");
                let label = event.to_string();
                s.append(label.as_str());
                s.append(": ");
                push_signed_decimal(&mut s, *delta as i128);
                assert(s@ =~= count_text(*event, *delta as int));
                Some(s)
            },
            ReportLine::TaskClock { .. } => None,
        }
    }
}

impl Report {
    /// The header line: it names the command that was measured.
    pub fn header(&self) -> (h: String)
        ensures
            h@ == header_text(self.command@),
    {
        let mut h = String::from_str("Performance counter stats for '");
        h.append(self.command.as_str());
        h.append(":'");
        assert(h@ =~= header_text(self.command@));
        h
    }
}

} // verus!
