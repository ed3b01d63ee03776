use iced_gesture::gesture::{Event, Kind, Phase};
use iced_gesture::protocol::State;
use iced_gesture::tracker::{Malformed, Rejection, Tracker};
use iced_gesture::value::{Point, Scalar};

fn scalar(value: f32) -> Scalar {
    Scalar::from_bits(value.to_bits())
}

fn pinch(phase: Phase, delta: f32) -> Event {
    Event::Pinch { phase, delta: scalar(delta) }
}

fn pan(phase: Phase, x: f32, y: f32) -> Event {
    Event::Pan { phase, delta: Point::new(scalar(x), scalar(y)) }
}

fn rotation(phase: Phase, delta: f32) -> Event {
    Event::Rotation { phase, delta: scalar(delta) }
}

fn of_kind(kind: Kind, phase: Phase) -> Event {
    match kind {
        Kind::Pinch => pinch(phase, 0.25),
        Kind::Pan => pan(phase, 1.0, 2.0),
        Kind::Rotation => rotation(phase, 45.0),
    }
}

const KINDS: [Kind; 3] = [Kind::Pinch, Kind::Pan, Kind::Rotation];
const PHASES: [Phase; 4] = [Phase::Started, Phase::Changed, Phase::Ended, Phase::Cancelled];
const STATES: [State; 3] = [State::Idle, State::Started, State::Changed];

fn trackers() -> Vec<Tracker> {
    let mut all = Vec::new();
    for pinch in STATES {
        for pan in STATES {
            for rotation in STATES {
                all.push(Tracker { pinch, pan, rotation });
            }
        }
    }
    all
}

/// Every stream of the given length over the twelve phased events and the
/// double tap.
fn streams(length: usize) -> Vec<Vec<Event>> {
    let mut alphabet = vec![Event::DoubleTap];
    for kind in KINDS {
        for phase in PHASES {
            alphabet.push(of_kind(kind, phase));
        }
    }
    let mut all = vec![Vec::new()];
    for _ in 0..length {
        let mut longer = Vec::new();
        for stream in &all {
            for event in &alphabet {
                let mut next = stream.clone();
                next.push(*event);
                longer.push(next);
            }
        }
        all = longer;
    }
    all
}

fn phases_of(events: &[Event], kind: Kind) -> Vec<Phase> {
    events.iter().filter(|event| event.kind() == Some(kind)).filter_map(|event| event.phase()).collect()
}

fn run(start: State, phases: &[Phase]) -> Option<State> {
    let mut state = start;
    for phase in phases {
        state = state.step(*phase)?;
    }
    Some(state)
}

#[test]
fn new_tracker_is_idle() {
    let tracker = Tracker::new();
    assert_eq!(
        tracker,
        Tracker { pinch: State::Idle, pan: State::Idle, rotation: State::Idle }
    );
    for kind in KINDS {
        assert_eq!(tracker.state(kind), State::Idle);
    }
}

#[test]
fn state_reads_the_kind() {
    let tracker = Tracker { pinch: State::Started, pan: State::Changed, rotation: State::Idle };
    assert_eq!(tracker.state(Kind::Pinch), State::Started);
    assert_eq!(tracker.state(Kind::Pan), State::Changed);
    assert_eq!(tracker.state(Kind::Rotation), State::Idle);
}

#[test]
fn pinch_episode_is_valid() {
    let mut tracker = Tracker::new();
    assert_eq!(tracker.accept(&pinch(Phase::Started, 0.0)), Ok(()));
    assert_eq!(tracker.state(Kind::Pinch), State::Started);
    assert_eq!(tracker.accept(&pinch(Phase::Changed, 0.15)), Ok(()));
    assert_eq!(tracker.state(Kind::Pinch), State::Changed);
    assert_eq!(tracker.accept(&pinch(Phase::Ended, 0.05)), Ok(()));
    assert_eq!(tracker.state(Kind::Pinch), State::Idle);
    assert_eq!(tracker, Tracker::new());
}

#[test]
fn pinch_episode_is_valid_as_a_stream() {
    let mut tracker = Tracker::new();
    let events =
        [pinch(Phase::Started, 0.0), pinch(Phase::Changed, 0.15), pinch(Phase::Ended, 0.05)];
    assert_eq!(tracker.accept_all(&events), Ok(()));
    assert_eq!(tracker, Tracker::new());
}

#[test]
fn pan_changed_without_started_is_a_violation() {
    let mut tracker = Tracker::new();
    assert_eq!(
        tracker.accept(&pan(Phase::Changed, 3.0, -1.0)),
        Err(Malformed { kind: Kind::Pan, phase: Phase::Changed, state: State::Idle })
    );
    assert_eq!(tracker, Tracker::new());
}

#[test]
fn rotation_and_pinch_are_open_together() {
    let mut tracker = Tracker::new();
    assert_eq!(tracker.accept(&rotation(Phase::Started, 0.0)), Ok(()));
    assert_eq!(tracker.accept(&pinch(Phase::Started, 0.0)), Ok(()));
    assert_eq!(
        tracker,
        Tracker { pinch: State::Started, pan: State::Idle, rotation: State::Started }
    );
    assert!(tracker.state(Kind::Rotation).is_open());
    assert!(tracker.state(Kind::Pinch).is_open());
    assert_eq!(tracker.accept(&rotation(Phase::Changed, 12.0)), Ok(()));
    assert_eq!(tracker.accept(&pinch(Phase::Cancelled, 0.0)), Ok(()));
    assert_eq!(tracker.accept(&rotation(Phase::Ended, 1.0)), Ok(()));
    assert_eq!(tracker, Tracker::new());
}

#[test]
fn double_tap_moves_no_state() {
    let mut tracker = Tracker::new();
    assert_eq!(tracker.accept(&Event::DoubleTap), Ok(()));
    assert_eq!(tracker, Tracker::new());
    for start in trackers() {
        let mut tracker = start;
        assert_eq!(tracker.accept(&Event::DoubleTap), Ok(()));
        assert_eq!(tracker, start);
    }
}

#[test]
fn double_tap_during_an_open_pinch_is_not_the_trackers_to_refuse() {
    let mut tracker = Tracker::new();
    assert_eq!(tracker.accept(&pinch(Phase::Started, 0.0)), Ok(()));
    assert_eq!(tracker.accept(&Event::DoubleTap), Ok(()));
    assert_eq!(tracker.state(Kind::Pinch), State::Started);
    assert_eq!(tracker.accept(&pinch(Phase::Ended, 0.0)), Ok(()));
    assert_eq!(tracker, Tracker::new());
}

#[test]
fn second_started_is_a_violation() {
    for kind in KINDS {
        let mut tracker = Tracker::new();
        assert_eq!(tracker.accept(&of_kind(kind, Phase::Started)), Ok(()));
        assert_eq!(
            tracker.accept(&of_kind(kind, Phase::Started)),
            Err(Malformed { kind, phase: Phase::Started, state: State::Started })
        );
        let mut tracker = Tracker::new();
        assert_eq!(tracker.accept(&of_kind(kind, Phase::Started)), Ok(()));
        assert_eq!(tracker.accept(&of_kind(kind, Phase::Changed)), Ok(()));
        assert_eq!(
            tracker.accept(&of_kind(kind, Phase::Started)),
            Err(Malformed { kind, phase: Phase::Started, state: State::Changed })
        );
    }
}

#[test]
fn terminal_phase_without_an_episode_is_a_violation() {
    for kind in KINDS {
        for phase in [Phase::Ended, Phase::Cancelled] {
            let mut tracker = Tracker::new();
            assert_eq!(
                tracker.accept(&of_kind(kind, phase)),
                Err(Malformed { kind, phase, state: State::Idle })
            );
            let mut tracker = Tracker::new();
            assert_eq!(tracker.accept(&of_kind(kind, Phase::Started)), Ok(()));
            assert_eq!(tracker.accept(&of_kind(kind, Phase::Ended)), Ok(()));
            assert_eq!(
                tracker.accept(&of_kind(kind, phase)),
                Err(Malformed { kind, phase, state: State::Idle })
            );
        }
    }
}

#[test]
fn violation_gives_up_the_episode_of_its_kind_only() {
    let mut tracker = Tracker { pinch: State::Changed, pan: State::Started, rotation: State::Changed };
    assert_eq!(
        tracker.accept(&pan(Phase::Started, 0.0, 0.0)),
        Err(Malformed { kind: Kind::Pan, phase: Phase::Started, state: State::Started })
    );
    assert_eq!(
        tracker,
        Tracker { pinch: State::Changed, pan: State::Idle, rotation: State::Changed }
    );
}

#[test]
fn started_is_accepted_again_after_a_violation() {
    for kind in KINDS {
        let mut tracker = Tracker::new();
        assert_eq!(tracker.accept(&of_kind(kind, Phase::Started)), Ok(()));
        assert!(tracker.accept(&of_kind(kind, Phase::Started)).is_err());
        assert_eq!(tracker.state(kind), State::Idle);
        assert_eq!(tracker.accept(&of_kind(kind, Phase::Started)), Ok(()));
        assert_eq!(tracker.state(kind), State::Started);
    }
}

#[test]
fn accept_follows_the_machine_of_the_events_kind() {
    for start in trackers() {
        for kind in KINDS {
            for phase in PHASES {
                let mut tracker = start;
                let result = tracker.accept(&of_kind(kind, phase));
                match start.state(kind).step(phase) {
                    Some(next) => {
                        assert_eq!(result, Ok(()));
                        assert_eq!(tracker.state(kind), next);
                    }
                    None => {
                        assert_eq!(
                            result,
                            Err(Malformed { kind, phase, state: start.state(kind) })
                        );
                        assert_eq!(tracker.state(kind), State::Idle);
                    }
                }
                for other in KINDS {
                    if other != kind {
                        assert_eq!(tracker.state(other), start.state(other));
                    }
                }
            }
        }
    }
}

#[test]
fn accept_all_of_nothing_is_ok() {
    for start in trackers() {
        let mut tracker = start;
        assert_eq!(tracker.accept_all(&[]), Ok(()));
        assert_eq!(tracker, start);
    }
}

#[test]
fn accept_all_takes_interleaved_episodes() {
    let mut tracker = Tracker::new();
    let events = [
        rotation(Phase::Started, 0.0),
        pinch(Phase::Started, 0.0),
        Event::DoubleTap,
        pan(Phase::Started, 0.0, 0.0),
        pinch(Phase::Changed, 0.1),
        rotation(Phase::Ended, 3.0),
        pan(Phase::Cancelled, 0.0, 0.0),
        rotation(Phase::Started, 0.0),
    ];
    assert_eq!(tracker.accept_all(&events), Ok(()));
    assert_eq!(
        tracker,
        Tracker { pinch: State::Changed, pan: State::Idle, rotation: State::Started }
    );
}

#[test]
fn accept_all_stops_at_the_first_offence() {
    let mut tracker = Tracker::new();
    let events = [
        pinch(Phase::Started, 0.0),
        rotation(Phase::Started, 0.0),
        pinch(Phase::Started, 0.0),
        rotation(Phase::Started, 0.0),
        pan(Phase::Started, 0.0, 0.0),
    ];
    assert_eq!(
        tracker.accept_all(&events),
        Err(Rejection {
            index: 2,
            cause: Malformed { kind: Kind::Pinch, phase: Phase::Started, state: State::Started },
        })
    );
    assert_eq!(
        tracker,
        Tracker { pinch: State::Idle, pan: State::Idle, rotation: State::Started }
    );
}

#[test]
fn accept_all_is_accept_one_by_one() {
    for start in [
        Tracker::new(),
        Tracker { pinch: State::Started, pan: State::Idle, rotation: State::Changed },
    ] {
        for length in 0..=3 {
            for events in streams(length) {
                let mut whole = start;
                let result = whole.accept_all(&events);
                let mut single = start;
                let mut expected = Ok(());
                for (index, event) in events.iter().enumerate() {
                    if let Err(cause) = single.accept(event) {
                        expected = Err(Rejection { index, cause });
                        break;
                    }
                }
                assert_eq!(result, expected, "{events:?}");
                assert_eq!(whole, single, "{events:?}");
            }
        }
    }
}

#[test]
fn kinds_run_independently() {
    for start in [
        Tracker::new(),
        Tracker { pinch: State::Changed, pan: State::Started, rotation: State::Idle },
    ] {
        for length in 0..=3 {
            for events in streams(length) {
                let mut tracker = start;
                let accepted = tracker.accept_all(&events).is_ok();
                let each = KINDS.map(|kind| run(start.state(kind), &phases_of(&events, kind)));
                assert_eq!(accepted, each.iter().all(|end| end.is_some()), "{events:?}");
                if accepted {
                    for (kind, end) in KINDS.iter().zip(each) {
                        assert_eq!(Some(tracker.state(*kind)), end, "{events:?}");
                    }
                }
            }
        }
    }
}

#[test]
fn episode_of_each_kind_is_accepted_among_the_others() {
    for kind in KINDS {
        let other = match kind {
            Kind::Pinch => Kind::Pan,
            Kind::Pan => Kind::Rotation,
            Kind::Rotation => Kind::Pinch,
        };
        let events = [
            of_kind(other, Phase::Started),
            of_kind(kind, Phase::Started),
            of_kind(other, Phase::Changed),
            of_kind(kind, Phase::Changed),
            Event::DoubleTap,
            of_kind(kind, Phase::Changed),
            of_kind(other, Phase::Ended),
            of_kind(kind, Phase::Cancelled),
        ];
        let mut tracker = Tracker::new();
        assert_eq!(tracker.accept_all(&events), Ok(()));
        assert_eq!(tracker, Tracker::new());
    }
}

#[test]
fn a_kind_never_starts_twice_in_a_row() {
    for length in 0..=4 {
        for events in streams(length) {
            let mut tracker = Tracker::new();
            if tracker.accept_all(&events).is_err() {
                continue;
            }
            for kind in KINDS {
                let phases = phases_of(&events, kind);
                for i in 0..phases.len() {
                    for j in i + 1..phases.len() {
                        if phases[i] == Phase::Started && phases[j] == Phase::Started {
                            assert!(
                                phases[i + 1..j].iter().any(|phase| phase.is_terminal()),
                                "{events:?}"
                            );
                        }
                    }
                }
            }
        }
    }
}
