use ruperf::counter::{resolve_events, Counter, CounterState};
use ruperf::event::StatEvent;

fn defaults() -> Vec<StatEvent> {
    vec![
        StatEvent::Cycles,
        StatEvent::Instructions,
        StatEvent::TaskClock,
        StatEvent::ContextSwitches,
        StatEvent::L1DCacheRead,
        StatEvent::L1DCacheWrite,
        StatEvent::L1DCacheReadMiss,
        StatEvent::L1ICacheReadMiss,
    ]
}

fn stopped(start: isize, stop: isize) -> Counter {
    Counter { event: StatEvent::Cycles, pid: 1, state: CounterState::Stopped, start, stop }
}

#[test]
fn empty_request_gives_the_eight_defaults_in_order() {
    let counters = Counter::counters(&Vec::new(), 4242);
    let events: Vec<StatEvent> = counters.iter().map(|c| c.event).collect();
    assert_eq!(events, defaults());
    assert_eq!(resolve_events(&Vec::new()), defaults());
}

#[test]
fn new_counters_are_bound_to_the_process_and_unread() {
    for c in Counter::counters(&Vec::new(), 4242) {
        assert_eq!(c.pid, 4242);
        assert_eq!(c.state, CounterState::Requested);
        assert_eq!(c.start, 0);
        assert_eq!(c.stop, 0);
    }
    let c = Counter::new(StatEvent::Instructions, 7);
    assert_eq!(
        c,
        Counter {
            event: StatEvent::Instructions,
            pid: 7,
            state: CounterState::Requested,
            start: 0,
            stop: 0
        }
    );
}

#[test]
fn request_is_kept_in_its_order() {
    let requested = vec![StatEvent::L1DCacheWrite, StatEvent::Cycles, StatEvent::TaskClock];
    let counters = Counter::counters(&requested, 9);
    let events: Vec<StatEvent> = counters.iter().map(|c| c.event).collect();
    assert_eq!(events, requested);
    assert_eq!(resolve_events(&requested), requested);
}

#[test]
fn repeated_request_gives_one_counter_each() {
    let requested = vec![StatEvent::Cycles, StatEvent::Cycles];
    let counters = Counter::counters(&requested, 9);
    assert_eq!(counters.len(), 2);
    assert_eq!(counters[0].event, StatEvent::Cycles);
    assert_eq!(counters[1].event, StatEvent::Cycles);
}

#[test]
fn request_is_left_as_it_was() {
    let requested: Vec<StatEvent> = Vec::new();
    let _ = Counter::counters(&requested, 1);
    assert!(requested.is_empty());
}

#[test]
fn delta_is_stop_minus_start() {
    assert_eq!(stopped(100, 350).delta(), Some(250));
    assert_eq!(stopped(0, 0).delta(), Some(0));
    assert_eq!(stopped(5, 5).delta(), Some(0));
    assert_eq!(stopped(-10, 20).delta(), Some(30));
    assert_eq!(stopped(0, isize::MAX).delta(), Some(isize::MAX));
}

#[test]
fn delta_below_zero_is_no_count() {
    assert_eq!(stopped(350, 100).delta(), None);
    assert_eq!(stopped(1, 0).delta(), None);
    assert_eq!(stopped(isize::MAX, isize::MIN).delta(), None);
}

#[test]
fn delta_too_large_to_hold_is_no_count() {
    assert_eq!(stopped(-1, isize::MAX).delta(), None);
    assert_eq!(stopped(isize::MIN, 0).delta(), None);
}

#[test]
fn delta_before_the_stop_is_no_count() {
    for state in [CounterState::Requested, CounterState::Open, CounterState::Counting] {
        let c = Counter { event: StatEvent::Cycles, pid: 1, state, start: 1, stop: 9 };
        assert_eq!(c.delta(), None);
    }
}

#[test]
fn counter_is_opened_started_and_stopped_in_turn() {
    let asked = Counter::new(StatEvent::Instructions, 7);
    let open = asked.opened();
    assert_eq!(open, Counter { state: CounterState::Open, ..asked });
    assert_eq!(open.delta(), None);
    let counting = open.started(120);
    assert_eq!(counting, Counter { state: CounterState::Counting, start: 120, ..asked });
    assert_eq!(counting.delta(), None);
    let stopped = counting.stopped(500);
    assert_eq!(
        stopped,
        Counter {
            event: StatEvent::Instructions,
            pid: 7,
            state: CounterState::Stopped,
            start: 120,
            stop: 500
        }
    );
    assert_eq!(stopped.delta(), Some(380));
}
