use ruperf::event::{ParseError, StatEvent};

fn catalogue() -> Vec<(StatEvent, &'static str, &'static str)> {
    vec![
        (StatEvent::Cycles, "cycles", "cycles"),
        (StatEvent::Instructions, "instructions", "instructions"),
        (StatEvent::TaskClock, "task-clock", "task clock"),
        (StatEvent::ContextSwitches, "context-switches", "context-switches"),
        (StatEvent::L1DCacheRead, "L1D-cache-reads", "L1D-cache-reads"),
        (StatEvent::L1DCacheWrite, "L1D-cache-writes", "L1D-cache-writes"),
        (StatEvent::L1DCacheReadMiss, "L1D-cache-read-misses", "L1D-cache-read-misses"),
        (StatEvent::L1ICacheReadMiss, "L1I-cache-read-misses", "L1I-cache-read-misses"),
    ]
}

#[test]
fn every_identifier_parses_to_its_event() {
    for (event, identifier, _) in catalogue() {
        assert_eq!(StatEvent::from_str(identifier), Ok(event));
    }
}

#[test]
fn every_event_shows_its_label() {
    for (event, _, label) in catalogue() {
        assert_eq!(event.to_string(), label);
    }
}

#[test]
fn label_parses_back_for_every_event_but_the_task_clock() {
    for (event, _, _) in catalogue() {
        let parsed = StatEvent::from_str(&event.to_string());
        if event == StatEvent::TaskClock {
            assert_eq!(parsed, Err(ParseError::InvalidEvent));
        } else {
            assert_eq!(parsed, Ok(event));
        }
    }
}

#[test]
fn task_clock_is_requested_with_a_hyphen_and_shown_with_a_space() {
    assert_eq!(StatEvent::from_str("task-clock"), Ok(StatEvent::TaskClock));
    assert_eq!(StatEvent::TaskClock.to_string(), "task clock");
    assert_eq!(StatEvent::from_str("task clock"), Err(ParseError::InvalidEvent));
}

#[test]
fn context_switches_is_requested_and_shown_with_a_hyphen() {
    assert_eq!(StatEvent::from_str("context-switches"), Ok(StatEvent::ContextSwitches));
    assert_eq!(StatEvent::ContextSwitches.to_string(), "context-switches");
    assert_eq!(
        StatEvent::from_str(&StatEvent::ContextSwitches.to_string()),
        Ok(StatEvent::ContextSwitches)
    );
    assert_eq!(StatEvent::from_str("context switches"), Err(ParseError::InvalidEvent));
}

#[test]
fn only_the_task_clock_is_shown_under_another_name() {
    for (event, identifier, label) in catalogue() {
        assert_eq!(identifier == label, event != StatEvent::TaskClock);
        assert_eq!(event.to_string() == identifier, event != StatEvent::TaskClock);
    }
}

#[test]
fn unknown_identifier_is_invalid() {
    assert_eq!(StatEvent::from_str("not-a-real-event"), Err(ParseError::InvalidEvent));
}

#[test]
fn parsing_is_exact() {
    for name in [
        "",
        "Cycles",
        "CYCLES",
        "cycles ",
        " cycles",
        "cycle",
        "cycless",
        "task_clock",
        "l1d-cache-reads",
        "L1D-cache-read",
        "L1D cache reads",
        "L1I-cache-reads",
        "cycles,instructions",
    ] {
        assert_eq!(StatEvent::from_str(name), Err(ParseError::InvalidEvent), "{:?}", name);
    }
}
