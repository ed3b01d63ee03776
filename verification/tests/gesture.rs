use iced_gesture::gesture::{Event, Kind, Phase};
use iced_gesture::value::{Point, Scalar};

fn scalar(value: f32) -> Scalar {
    Scalar::from_bits(value.to_bits())
}

fn point(x: f32, y: f32) -> Point {
    Point::new(scalar(x), scalar(y))
}

fn samples() -> Vec<f32> {
    vec![
        0.0,
        -0.0,
        0.05,
        0.15,
        -0.15,
        1.0,
        -1.0,
        3.0,
        16.0,
        f32::MIN_POSITIVE,
        f32::from_bits(1),
        f32::from_bits(0x8000_0001),
        f32::MAX,
        f32::MIN,
        f32::INFINITY,
        f32::NEG_INFINITY,
        f32::NAN,
        -f32::NAN,
        f32::from_bits(0x7f80_0001),
        f32::from_bits(0xffff_ffff),
    ]
}

fn phased_events() -> Vec<Event> {
    let mut events = Vec::new();
    for phase in [Phase::Started, Phase::Changed, Phase::Ended, Phase::Cancelled] {
        for value in [0.0f32, 0.15, -2.5, f32::NAN] {
            events.push(Event::Pinch { phase, delta: scalar(value) });
            events.push(Event::Pan { phase, delta: point(value, -value) });
            events.push(Event::Rotation { phase, delta: scalar(value) });
        }
    }
    events
}

#[test]
fn scalar_keeps_its_encoding() {
    for value in samples() {
        let held = scalar(value);
        assert_eq!(held.to_bits(), value.to_bits());
        assert_eq!(held.bits, value.to_bits());
    }
    assert_eq!(scalar(16.0).to_bits(), 0x4180_0000);
    assert_eq!(scalar(-0.0).to_bits(), 0x8000_0000);
}

#[test]
fn scalar_equality_is_that_of_the_numbers() {
    for a in samples() {
        for b in samples() {
            assert_eq!(scalar(a) == scalar(b), a == b, "{a:?} against {b:?}");
            assert_eq!(scalar(a) != scalar(b), a != b, "{a:?} against {b:?}");
        }
    }
}

#[test]
fn scalar_zeros_are_equal_and_nan_is_not() {
    assert!(scalar(0.0) == scalar(-0.0));
    assert!(scalar(f32::NAN) != scalar(f32::NAN));
    assert!(scalar(f32::INFINITY) == scalar(f32::INFINITY));
    assert!(scalar(f32::INFINITY) != scalar(f32::NEG_INFINITY));
}

#[test]
fn scalar_classes_follow_the_encoding() {
    for value in samples() {
        let held = scalar(value);
        assert_eq!(held.is_nan(), value.is_nan(), "{value:?}");
        assert_eq!(held.is_zero(), value == 0.0, "{value:?}");
        assert_eq!(held.magnitude(), value.abs().to_bits(), "{value:?}");
    }
}

#[test]
fn point_equality_takes_both_coordinates() {
    assert!(point(3.0, -1.0) == point(3.0, -1.0));
    assert!(point(3.0, -1.0) != point(3.0, 1.0));
    assert!(point(3.0, -1.0) != point(-3.0, -1.0));
    assert!(point(0.0, -0.0) == point(-0.0, 0.0));
    assert!(point(f32::NAN, 0.0) != point(f32::NAN, 0.0));
    assert!(point(0.0, f32::NAN) != point(0.0, f32::NAN));
    let p = point(3.0, -1.0);
    assert_eq!(p.x.to_bits(), 3.0f32.to_bits());
    assert_eq!(p.y.to_bits(), (-1.0f32).to_bits());
}

#[test]
fn phase_is_terminal_for_ended_and_cancelled_only() {
    assert!(!Phase::Started.is_terminal());
    assert!(!Phase::Changed.is_terminal());
    assert!(Phase::Ended.is_terminal());
    assert!(Phase::Cancelled.is_terminal());
    assert_ne!(Phase::Ended, Phase::Cancelled);
}

#[test]
fn event_kind_and_phase() {
    for phase in [Phase::Started, Phase::Changed, Phase::Ended, Phase::Cancelled] {
        let pinch = Event::Pinch { phase, delta: scalar(0.5) };
        let pan = Event::Pan { phase, delta: point(3.0, -1.0) };
        let rotation = Event::Rotation { phase, delta: scalar(-90.0) };
        assert_eq!(pinch.kind(), Some(Kind::Pinch));
        assert_eq!(pan.kind(), Some(Kind::Pan));
        assert_eq!(rotation.kind(), Some(Kind::Rotation));
        assert_eq!(pinch.phase(), Some(phase));
        assert_eq!(pan.phase(), Some(phase));
        assert_eq!(rotation.phase(), Some(phase));
    }
    assert_eq!(Event::DoubleTap.kind(), None);
    assert_eq!(Event::DoubleTap.phase(), None);
}

#[test]
fn event_equality_compares_payloads() {
    let a = Event::Pinch { phase: Phase::Changed, delta: scalar(0.15) };
    assert_eq!(a, Event::Pinch { phase: Phase::Changed, delta: scalar(0.15) });
    assert_ne!(a, Event::Pinch { phase: Phase::Changed, delta: scalar(0.05) });
    assert_ne!(a, Event::Pinch { phase: Phase::Ended, delta: scalar(0.15) });
    assert_ne!(a, Event::Rotation { phase: Phase::Changed, delta: scalar(0.15) });
    let b = Event::Pan { phase: Phase::Changed, delta: point(3.0, -1.0) };
    assert_eq!(b, Event::Pan { phase: Phase::Changed, delta: point(3.0, -1.0) });
    assert_ne!(b, Event::Pan { phase: Phase::Changed, delta: point(3.0, 1.0) });
    assert_ne!(b, Event::Pan { phase: Phase::Started, delta: point(3.0, -1.0) });
    let c = Event::Rotation { phase: Phase::Ended, delta: scalar(0.0) };
    assert_eq!(c, Event::Rotation { phase: Phase::Ended, delta: scalar(-0.0) });
    assert_ne!(c, Event::Pinch { phase: Phase::Ended, delta: scalar(0.0) });
}

#[test]
fn event_with_a_delta_that_is_no_number_equals_nothing() {
    let a = Event::Pinch { phase: Phase::Changed, delta: scalar(f32::NAN) };
    assert_ne!(a, a);
    let b = Event::Pan { phase: Phase::Changed, delta: point(1.0, f32::NAN) };
    assert_ne!(b, b);
}

#[test]
fn double_tap_equals_itself() {
    assert_eq!(Event::DoubleTap, Event::DoubleTap);
}

#[test]
fn double_tap_equals_no_phased_event() {
    for event in phased_events() {
        assert!(event != Event::DoubleTap, "{event:?}");
        assert!(Event::DoubleTap != event, "{event:?}");
        assert!(!(event == Event::DoubleTap), "{event:?}");
        assert!(!(Event::DoubleTap == event), "{event:?}");
    }
}

#[test]
fn events_are_copied_whole() {
    let a = Event::Pan { phase: Phase::Changed, delta: point(3.0, -1.0) };
    let b = a;
    let c = a.clone();
    assert_eq!(a, b);
    assert_eq!(a, c);
}
