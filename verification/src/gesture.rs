//! Gesture events.
//!
//! An [`Event`] is one notification of an already recognized gesture. The
//! three phased kinds report an episode from its start to its end; a double
//! tap is complete in itself.
use crate::value::{Point, Scalar};
use vstd::prelude::*;
use vstd::std_specs::cmp::{PartialEqSpec, PartialEqSpecImpl};

verus! {

/// The phase of an ongoing gesture.
#[derive(Debug, Clone, Copy, PartialEq, Eq, Structural)]
pub enum Phase {
    /// The gesture has started.
    Started,
    /// The gesture parameters have changed.
    Changed,
    /// The gesture has ended.
    Ended,
    /// The system cancelled the gesture.
    Cancelled,
}

impl Phase {
    /// Whether this phase closes an episode.
    pub open spec fn spec_is_terminal(self) -> bool {
        self == Phase::Ended || self == Phase::Cancelled
    }

    /// Whether this phase closes an episode.
    #[verifier::when_used_as_spec(spec_is_terminal)]
    pub fn is_terminal(self) -> (r: bool)
        ensures
            r == self.spec_is_terminal(),
    {
        match self {
            Phase::Ended | Phase::Cancelled => true,
            Phase::Started | Phase::Changed => false,
        }
    }
}

/// The kinds of gesture that run through phases.
#[derive(Debug, Clone, Copy, PartialEq, Eq, Structural)]
pub enum Kind {
    /// Two-finger magnification.
    Pinch,
    /// Multi-finger drag.
    Pan,
    /// Two-finger rotation.
    Rotation,
}

/// A trackpad/touchscreen gesture.
///
/// Every delta is relative to the preceding event of the same episode, not
/// to its start.
#[derive(Debug, Clone, Copy)]
#[allow(inconsistent_fields)]
pub enum Event {
    /// A pinch gesture (two-finger zoom on trackpad).
    Pinch {
        /// The phase of the gesture.
        phase: Phase,
        /// The magnification delta; positive for zoom in, negative for zoom out.
        delta: Scalar,
    },
    /// A pan gesture (multi-finger drag).
    Pan {
        /// The phase of the gesture.
        phase: Phase,
        /// The change in position since the last event.
        delta: Point,
    },
    /// A rotation gesture (two-finger rotation on trackpad).
    Rotation {
        /// The phase of the gesture.
        phase: Phase,
        /// The change in rotation in degrees.
        delta: Scalar,
    },
    /// A double-tap gesture on the trackpad (smart zoom).
    DoubleTap,
}

impl Event {
    /// The kind and phase that a phased event reports; `None` for a double
    /// tap, which has neither.
    pub open spec fn phased(self) -> Option<(Kind, Phase)> {
        match self {
            Event::Pinch { phase, .. } => Some((Kind::Pinch, phase)),
            Event::Pan { phase, .. } => Some((Kind::Pan, phase)),
            Event::Rotation { phase, .. } => Some((Kind::Rotation, phase)),
            Event::DoubleTap => None,
        }
    }

    /// Whether the event is a phased one of the given kind.
    pub open spec fn is_of(self, kind: Kind) -> bool {
        match self.phased() {
            Some((k, _)) => k == kind,
            None => false,
        }
    }

    /// What `==` means on events: the same variant, the same phase, and
    /// deltas that are the same number in every coordinate.
    pub open spec fn same_event(self, other: Event) -> bool {
        match (self, other) {
            (Event::Pinch { phase: p, delta: d }, Event::Pinch { phase: q, delta: e }) => p == q
                && d.same_number(e),
            (Event::Pan { phase: p, delta: d }, Event::Pan { phase: q, delta: e }) => p == q
                && d.same_point(e),
            (Event::Rotation { phase: p, delta: d }, Event::Rotation { phase: q, delta: e }) => p
                == q && d.same_number(e),
            (Event::DoubleTap, Event::DoubleTap) => true,
            _ => false,
        }
    }

    /// The phased kind of the event, if it has one.
    pub fn kind(&self) -> (r: Option<Kind>)
        ensures
            r == match self.phased() {
                Some((kind, _)) => Some(kind),
                None => None,
            },
    {
        match self {
            Event::Pinch { .. } => Some(Kind::Pinch),
            Event::Pan { .. } => Some(Kind::Pan),
            Event::Rotation { .. } => Some(Kind::Rotation),
            Event::DoubleTap => None,
        }
    }

    /// The phase of the event, if it has one.
    pub fn phase(&self) -> (r: Option<Phase>)
        ensures
            r == match self.phased() {
                Some((_, phase)) => Some(phase),
                None => None,
            },
    {
        match self {
            Event::Pinch { phase, .. } => Some(*phase),
            Event::Pan { phase, .. } => Some(*phase),
            Event::Rotation { phase, .. } => Some(*phase),
            Event::DoubleTap => None,
        }
    }
}

impl PartialEq for Event {
    fn eq(&self, other: &Self) -> (r: bool) {
        match (self, other) {
            (Event::Pinch { phase: p, delta: d }, Event::Pinch { phase: q, delta: e }) => *p == *q
                && *d == *e,
            (Event::Pan { phase: p, delta: d }, Event::Pan { phase: q, delta: e }) => *p == *q
                && *d == *e,
            (Event::Rotation { phase: p, delta: d }, Event::Rotation { phase: q, delta: e }) => *p
                == *q && *d == *e,
            (Event::DoubleTap, Event::DoubleTap) => true,
            _ => false,
        }
    }
}

impl PartialEqSpecImpl for Event {
    open spec fn obeys_eq_spec() -> bool {
        true
    }

    open spec fn eq_spec(&self, other: &Self) -> bool {
        self.same_event(*other)
    }
}

/// A double tap equals no phased event, whichever side of `==` it stands on,
/// and whatever the phase and delta of the other.
pub proof fn lemma_double_tap_is_distinct(event: Event)
    requires
        !(event is DoubleTap),
    ensures
        !PartialEqSpec::eq_spec(&event, &Event::DoubleTap),
        !PartialEqSpec::eq_spec(&Event::DoubleTap, &event),
{
}

} // verus!
