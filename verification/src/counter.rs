//! Counters: one record per requested event, bound to the process that is
//! measured, with the two readings that bracket the measurement.

use crate::event::StatEvent;
use vstd::prelude::*;

verus! {

/// How far a counter has come.
#[derive(Debug, Copy, Clone, PartialEq, Eq, Structural)]
pub enum CounterState {
    /// Asked for; the kernel has not been asked yet.
    Requested,
    /// The kernel tracks the event; nothing has been read.
    Open,
    /// Counting; `start` holds the reading at the start.
    Counting,
    /// Stopped; `start` and `stop` hold both readings.
    Stopped,
}

/// One counter of a run. `start` means something from `Counting` on, `stop`
/// only once the counter is `Stopped`.
#[derive(Debug, Copy, Clone, PartialEq, Eq, Structural)]
pub struct Counter {
    pub event: StatEvent,
    pub pid: i32,
    pub state: CounterState,
    pub start: isize,
    pub stop: isize,
}

/// The events that are counted when none is asked for, in report order.
pub open spec fn default_events() -> Seq<StatEvent> {
    seq![
        StatEvent::Cycles,
        StatEvent::Instructions,
        StatEvent::TaskClock,
        StatEvent::ContextSwitches,
        StatEvent::L1DCacheRead,
        StatEvent::L1DCacheWrite,
        StatEvent::L1DCacheReadMiss,
        StatEvent::L1ICacheReadMiss,
    ]
}

/// The events that a request stands for: the request itself, in its own
/// order and with its repetitions, or the default set for an empty request.
pub open spec fn resolve(requested: Seq<StatEvent>) -> Seq<StatEvent> {
    if requested.len() == 0 {
        default_events()
    } else {
        requested
    }
}

/// One new counter per event, in order, all bound to `pid`.
pub open spec fn fresh_counters(events: Seq<StatEvent>, pid: i32) -> Seq<Counter> {
    Seq::new(events.len(), |i: int| Counter::fresh(events[i], pid))
}

/// The events of a list of counters, in order.
pub open spec fn events_of(counters: Seq<Counter>) -> Seq<StatEvent> {
    Seq::new(counters.len(), |i: int| counters[i].event)
}

/// A run with no requested event counts exactly the eight default events,
/// in their fixed order, whatever the process.
pub proof fn lemma_default_set(pid: i32)
    ensures
        events_of(fresh_counters(resolve(Seq::<StatEvent>::empty()), pid)) == default_events(),
        default_events().len() == 8,
        default_events()[0] == StatEvent::Cycles,
        default_events()[1] == StatEvent::Instructions,
        default_events()[2] == StatEvent::TaskClock,
        default_events()[3] == StatEvent::ContextSwitches,
        default_events()[4] == StatEvent::L1DCacheRead,
        default_events()[5] == StatEvent::L1DCacheWrite,
        default_events()[6] == StatEvent::L1DCacheReadMiss,
        default_events()[7] == StatEvent::L1ICacheReadMiss,
{
    assert(events_of(fresh_counters(resolve(Seq::<StatEvent>::empty()), pid))
        =~= default_events());
}

/// A request that names at least one event is counted as it stands: one
/// counter per named event, in the order given, repetitions kept.
pub proof fn lemma_request_kept(requested: Seq<StatEvent>, pid: i32)
    requires
        requested.len() > 0,
    ensures
        events_of(fresh_counters(resolve(requested), pid)) == requested,
{
    assert(events_of(fresh_counters(resolve(requested), pid)) =~= requested);
}

/// The events to count for a request.
pub fn resolve_events(requested: &Vec<StatEvent>) -> (events: Vec<StatEvent>)
    ensures
        events@ == resolve(requested@),
{
    let mut events: Vec<StatEvent> = Vec::new();
    if requested.len() == 0 {
        events.push(StatEvent::Cycles);
        events.push(StatEvent::Instructions);
        events.push(StatEvent::TaskClock);
        events.push(StatEvent::ContextSwitches);
        events.push(StatEvent::L1DCacheRead);
        events.push(StatEvent::L1DCacheWrite);
        events.push(StatEvent::L1DCacheReadMiss);
        events.push(StatEvent::L1ICacheReadMiss);
        assert(events@ =~= default_events());
    } else {
        let mut i: usize = 0;
        while i < requested.len()
            invariant
                i <= requested.len(),
                events@ == requested@.take(i as int),
            decreases requested.len() - i,
        {
            events.push(requested[i]);
            assert(events@ =~= requested@.take(i + 1));
            i = i + 1;
        }
        assert(events@ =~= requested@);
    }
    events
}

impl Counter {
    /// A counter that has been asked for and nothing more.
    pub open spec fn fresh(event: StatEvent, pid: i32) -> Counter {
        Counter { event, pid, state: CounterState::Requested, start: 0, stop: 0 }
    }

    /// What the counter counted between its two readings.
    pub open spec fn spec_delta(self) -> int {
        self.stop - self.start
    }

    /// Whether the counter is stopped with a difference that can be
    /// reported: not negative, and small enough to be held.
    pub open spec fn settled(self) -> bool {
        self.state == CounterState::Stopped && 0 <= self.spec_delta() <= isize::MAX
    }

    /// The counter once the kernel tracks its event.
    pub open spec fn spec_opened(self) -> Counter {
        Counter { state: CounterState::Open, ..self }
    }

    /// The counter once it counts, having read `value` at the start.
    pub open spec fn spec_started(self, value: isize) -> Counter {
        Counter { state: CounterState::Counting, start: value, ..self }
    }

    /// The counter once it is stopped, having read `value` at the stop.
    pub open spec fn spec_stopped(self, value: isize) -> Counter {
        Counter { state: CounterState::Stopped, stop: value, ..self }
    }

    /// A new counter for `event` on the process `pid`.
    pub fn new(event: StatEvent, pid: i32) -> (c: Counter)
        ensures
            c == Counter::fresh(event, pid),
    {
        Counter { event, pid, state: CounterState::Requested, start: 0, stop: 0 }
    }

    /// Records that the kernel tracks the event. Only a counter that was
    /// asked for and nothing more is opened.
    pub fn opened(self) -> (c: Counter)
        requires
            self.state == CounterState::Requested,
        ensures
            c == self.spec_opened(),
    {
        Counter {
            event: self.event,
            pid: self.pid,
            state: CounterState::Open,
            start: self.start,
            stop: self.stop,
        }
    }

    /// Records that the counter counts and read `value` at the start: the
    /// baseline of the measurement. Only an open counter is started.
    pub fn started(self, value: isize) -> (c: Counter)
        requires
            self.state == CounterState::Open,
        ensures
            c == self.spec_started(value),
    {
        Counter {
            event: self.event,
            pid: self.pid,
            state: CounterState::Counting,
            start: value,
            stop: self.stop,
        }
    }

    /// Records that the counter is stopped and read `value` at the stop.
    /// Only a counter that counts is stopped: none is read before it was
    /// started.
    pub fn stopped(self, value: isize) -> (c: Counter)
        requires
            self.state == CounterState::Counting,
        ensures
            c == self.spec_stopped(value),
    {
        Counter {
            event: self.event,
            pid: self.pid,
            state: CounterState::Stopped,
            start: self.start,
            stop: value,
        }
    }

    /// The counters of a run on the process `pid`: one per requested event
    /// in the order given, repetitions included, or the eight default
    /// counters where `options` is empty.
    pub fn counters(options: &Vec<StatEvent>, pid: i32) -> (counters: Vec<Counter>)
        ensures
            counters@ == fresh_counters(resolve(options@), pid),
            events_of(counters@) == resolve(options@),
    {
        let events = resolve_events(options);
        let mut counters: Vec<Counter> = Vec::new();
        let mut i: usize = 0;
        while i < events.len()
            invariant
                i <= events.len(),
                counters@ == fresh_counters(events@.take(i as int), pid),
            decreases events.len() - i,
        {
            counters.push(Counter::new(events[i], pid));
            assert(counters@ =~= fresh_counters(events@.take(i + 1), pid));
            i = i + 1;
        }
        assert(events@.take(events.len() as int) =~= events@);
        assert(events_of(counters@) =~= events@);
        counters
    }

    /// What the counter counted, once it is stopped. `None` before that,
    /// and where the stop reading lies below the start reading or the
    /// difference cannot be held: such a counter has no count to report.
    pub fn delta(&self) -> (d: Option<isize>)
        ensures
            d is Some <==> self.settled(),
            d matches Some(n) ==> n == self.spec_delta(),
    {
        match self.state {
            CounterState::Stopped => {
                if self.stop < self.start {
                    None
                } else {
                    self.stop.checked_sub(self.start)
                }
            },
            _ => None,
        }
    }
}

} // verus!
