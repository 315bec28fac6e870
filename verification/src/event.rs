//! The catalogue of countable events and their names.

use crate::text::same_text;
use vstd::prelude::*;

verus! {

/// Supported events.
#[derive(Debug, Copy, Clone, PartialEq, Eq, Structural)]
pub enum StatEvent {
    Cycles,
    Instructions,
    TaskClock,
    ContextSwitches,
    L1DCacheRead,
    L1DCacheWrite,
    L1DCacheReadMiss,
    L1ICacheReadMiss,
}

/// Why an event name was not accepted.
#[derive(Debug, Copy, Clone, PartialEq, Eq, Structural)]
pub enum ParseError {
    /// The name is not in the catalogue.
    InvalidEvent,
}

impl StatEvent {
    /// The name by which the event is requested on the command line.
    pub open spec fn identifier(self) -> Seq<char> {
        match self {
            StatEvent::Cycles => "cycles"@,
            StatEvent::Instructions => "instructions"@,
            StatEvent::TaskClock => "task-clock"@,
            StatEvent::ContextSwitches => "context-switches"@,
            StatEvent::L1DCacheRead => "L1D-cache-reads"@,
            StatEvent::L1DCacheWrite => "L1D-cache-writes"@,
            StatEvent::L1DCacheReadMiss => "L1D-cache-read-misses"@,
            StatEvent::L1ICacheReadMiss => "L1I-cache-read-misses"@,
        }
    }

    /// The name under which the event appears in a report: its identifier,
    /// but for the task clock, which is shown as `task clock`, with a space.
    pub open spec fn label(self) -> Seq<char> {
        match self {
            StatEvent::Cycles => "cycles"@,
            StatEvent::Instructions => "instructions"@,
            StatEvent::TaskClock => "task clock"@,
            StatEvent::ContextSwitches => "context-switches"@,
            StatEvent::L1DCacheRead => "L1D-cache-reads"@,
            StatEvent::L1DCacheWrite => "L1D-cache-writes"@,
            StatEvent::L1DCacheReadMiss => "L1D-cache-read-misses"@,
            StatEvent::L1ICacheReadMiss => "L1I-cache-read-misses"@,
        }
    }

    /// The report name of the event, as an owned string.
    pub fn to_string(&self) -> (s: String)
        ensures
            s@ == self.label(),
    {
        match self {
            StatEvent::Cycles => String::from_str("cycles"),
            StatEvent::Instructions => String::from_str("instructions"),
            StatEvent::TaskClock => String::from_str("task clock"),
            StatEvent::ContextSwitches => String::from_str("context-switches"),
            StatEvent::L1DCacheRead => String::from_str("L1D-cache-reads"),
            StatEvent::L1DCacheWrite => String::from_str("L1D-cache-writes"),
            StatEvent::L1DCacheReadMiss => String::from_str("L1D-cache-read-misses"),
            StatEvent::L1ICacheReadMiss => String::from_str("L1I-cache-read-misses"),
        }
    }
}

/// The event that a requested name stands for: the one event whose
/// identifier is `name`, or `InvalidEvent` where the catalogue has none.
pub open spec fn parse(name: Seq<char>) -> Result<StatEvent, ParseError> {
    if exists|k: StatEvent| #[trigger] k.identifier() == name {
        Ok(choose|k: StatEvent| #[trigger] k.identifier() == name)
    } else {
        Err(ParseError::InvalidEvent)
    }
}

/// Makes the characters of every catalogue name known to the solver.
proof fn reveal_names()
    ensures
        "cycles"@.len() == 6,
        "instructions"@.len() == 12,
        "task-clock"@.len() == 10 && "task-clock"@[4] == '-',
        "task clock"@.len() == 10 && "task clock"@[4] == ' ',
        "context-switches"@.len() == 16 && "context-switches"@[0] == 'c',
        "L1D-cache-reads"@.len() == 15,
        "L1D-cache-writes"@.len() == 16 && "L1D-cache-writes"@[0] == 'L',
        "L1D-cache-read-misses"@.len() == 21 && "L1D-cache-read-misses"@[2] == 'D',
        "L1I-cache-read-misses"@.len() == 21 && "L1I-cache-read-misses"@[2] == 'I',
{
    reveal_strlit("cycles");
    reveal_strlit("instructions");
    reveal_strlit("task-clock");
    reveal_strlit("task clock");
    reveal_strlit("context-switches");
    reveal_strlit("L1D-cache-reads");
    reveal_strlit("L1D-cache-writes");
    reveal_strlit("L1D-cache-read-misses");
    reveal_strlit("L1I-cache-read-misses");
}

/// No two events share an identifier.
pub proof fn lemma_identifier_injective(a: StatEvent, b: StatEvent)
    requires
        a.identifier() == b.identifier(),
    ensures
        a == b,
{
    reveal_names();
}

/// Parsing the identifier of an event gives that event back, for every
/// event of the catalogue.
pub proof fn lemma_parse_identifier(k: StatEvent)
    ensures
        parse(k.identifier()) == Ok::<StatEvent, ParseError>(k),
{
    let name = k.identifier();
    assert(k.identifier() == name);
    let found = choose|j: StatEvent| #[trigger] j.identifier() == name;
    lemma_identifier_injective(found, k);
}

/// A name that is the identifier of no event is rejected as `InvalidEvent`.
pub proof fn lemma_parse_unknown(name: Seq<char>)
    requires
        forall|k: StatEvent| #[trigger] k.identifier() != name,
    ensures
        parse(name) == Err::<StatEvent, ParseError>(ParseError::InvalidEvent),
{
}

/// Every event but the task clock is shown under the name by which it is
/// requested.
pub proof fn lemma_label_is_identifier(k: StatEvent)
    requires
        k != StatEvent::TaskClock,
    ensures
        k.label() == k.identifier(),
{
}

/// Parsing the report label of an event gives that event back, for every
/// event but the task clock.
pub proof fn lemma_parse_label(k: StatEvent)
    requires
        k != StatEvent::TaskClock,
    ensures
        parse(k.label()) == Ok::<StatEvent, ParseError>(k),
{
    lemma_label_is_identifier(k);
    lemma_parse_identifier(k);
}

/// The task clock is requested as `task-clock` and shown as `task clock`:
/// its label is not its identifier, and is not accepted as a request.
pub proof fn lemma_task_clock_label_rejected()
    ensures
        StatEvent::TaskClock.label() != StatEvent::TaskClock.identifier(),
        parse(StatEvent::TaskClock.identifier()) == Ok::<StatEvent, ParseError>(
            StatEvent::TaskClock,
        ),
        parse(StatEvent::TaskClock.label()) == Err::<StatEvent, ParseError>(
            ParseError::InvalidEvent,
        ),
{
    reveal_names();
    lemma_parse_identifier(StatEvent::TaskClock);
    assert forall|k: StatEvent| #[trigger] k.identifier() != StatEvent::TaskClock.label() by {}
}

impl StatEvent {
    /// Reads an event from its identifier. The match is exact: case and
    /// hyphens count, and nothing but the eight identifiers is accepted.
    pub fn from_str(s: &str) -> (r: Result<StatEvent, ParseError>)
        ensures
            r == parse(s@),
    {
        let r = if same_text(s, "cycles") {
            Ok(StatEvent::Cycles)
        } else if same_text(s, "instructions") {
            Ok(StatEvent::Instructions)
        } else if same_text(s, "task-clock") {
            Ok(StatEvent::TaskClock)
        } else if same_text(s, "context-switches") {
            Ok(StatEvent::ContextSwitches)
        } else if same_text(s, "L1D-cache-reads") {
            Ok(StatEvent::L1DCacheRead)
        } else if same_text(s, "L1D-cache-writes") {
            Ok(StatEvent::L1DCacheWrite)
        } else if same_text(s, "L1D-cache-read-misses") {
            Ok(StatEvent::L1DCacheReadMiss)
        } else if same_text(s, "L1I-cache-read-misses") {
            Ok(StatEvent::L1ICacheReadMiss)
        } else {
            Err(ParseError::InvalidEvent)
        };
        proof {
            match r {
                Ok(k) => {
                    assert(k.identifier() == s@);
                    lemma_parse_identifier(k);
                },
                Err(_) => {
                    assert forall|k: StatEvent| #[trigger] k.identifier() != s@ by {}
                },
            }
        }
        r
    }
}

} // verus!
