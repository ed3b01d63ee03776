//! A tracker that holds a stream of gesture events to the protocol.
//!
//! Each phased kind has a state of its own, so episodes of different kinds
//! may be open at once, while a kind never has two. An event that is out of
//! sequence for its kind is reported as [`Malformed`], and the episode of
//! that kind is given up, so that its next `Started` is accepted again.
//!
//! A double tap is a notification of its own and moves no state. That none
//! arrives while a phased episode is open for the same contact is left to
//! whoever produces the events: the tracker does not see contacts.
use crate::gesture::{Event, Kind, Phase};
use crate::protocol::{
    is_episode, lemma_episode_is_one_round_trip, lemma_started_needs_terminal_before_next, run,
    State,
};
use vstd::prelude::*;

verus! {

/// The report of an event that is out of sequence for its kind.
#[derive(Debug, Clone, Copy, PartialEq, Eq, Structural)]
pub struct Malformed {
    /// The kind of the offending event.
    pub kind: Kind,
    /// The phase that arrived.
    pub phase: Phase,
    /// The state in which it arrived, and which does not allow it.
    pub state: State,
}

/// The report of a stream that was not accepted to its end.
#[derive(Debug, Clone, Copy, PartialEq, Eq, Structural)]
pub struct Rejection {
    /// The position of the first offending event in the stream.
    pub index: usize,
    /// What was wrong with it.
    pub cause: Malformed,
}

/// The state of every phased kind.
#[derive(Debug, Clone, Copy, PartialEq, Eq, Structural)]
pub struct Tracker {
    /// Where the pinch gesture stands.
    pub pinch: State,
    /// Where the pan gesture stands.
    pub pan: State,
    /// Where the rotation gesture stands.
    pub rotation: State,
}

/// The phases that the events of one kind report, in the order of the
/// stream; events of other kinds and double taps are passed over.
pub open spec fn phases_of(events: Seq<Event>, kind: Kind) -> Seq<Phase>
    decreases events.len(),
{
    if events.len() == 0 {
        Seq::empty()
    } else {
        let before = phases_of(events.drop_last(), kind);
        match events.last().phased() {
            Some((k, phase)) => if k == kind {
                before.push(phase)
            } else {
                before
            },
            None => before,
        }
    }
}

impl Tracker {
    /// The state of one kind.
    pub open spec fn spec_state(self, kind: Kind) -> State {
        match kind {
            Kind::Pinch => self.pinch,
            Kind::Pan => self.pan,
            Kind::Rotation => self.rotation,
        }
    }

    /// This tracker with the state of one kind replaced.
    pub open spec fn with_state(self, kind: Kind, state: State) -> Tracker {
        match kind {
            Kind::Pinch => Tracker { pinch: state, ..self },
            Kind::Pan => Tracker { pan: state, ..self },
            Kind::Rotation => Tracker { rotation: state, ..self },
        }
    }

    /// Whether `event` is in sequence here. A double tap always is.
    pub open spec fn admits(self, event: Event) -> bool {
        match event.phased() {
            Some((kind, phase)) => self.spec_state(kind).spec_step(phase) is Some,
            None => true,
        }
    }

    /// What is reported of `event` where it is out of sequence here.
    pub open spec fn offence(self, event: Event) -> Option<Malformed> {
        match event.phased() {
            Some((kind, phase)) => if self.spec_state(kind).spec_step(phase) is Some {
                None
            } else {
                Some(Malformed { kind, phase, state: self.spec_state(kind) })
            },
            None => None,
        }
    }

    /// The tracker after `event`: the kind of the event has taken its step,
    /// or is back in `Idle` where the event was out of sequence; the other
    /// kinds are as they were.
    pub open spec fn after(self, event: Event) -> Tracker {
        match event.phased() {
            Some((kind, phase)) => self.with_state(
                kind,
                match self.spec_state(kind).spec_step(phase) {
                    Some(next) => next,
                    None => State::Idle,
                },
            ),
            None => self,
        }
    }

    /// Whether every event of the stream is in sequence where it arrives.
    pub open spec fn admits_all(self, events: Seq<Event>) -> bool
        decreases events.len(),
    {
        events.len() == 0 || (self.admits_all(events.drop_last()) && self.after_all(
            events.drop_last(),
        ).admits(events.last()))
    }

    /// The tracker after the whole stream.
    pub open spec fn after_all(self, events: Seq<Event>) -> Tracker
        decreases events.len(),
    {
        if events.len() == 0 {
            self
        } else {
            self.after_all(events.drop_last()).after(events.last())
        }
    }

    /// A tracker with no episode open.
    pub fn new() -> (r: Tracker)
        ensures
            r == (Tracker { pinch: State::Idle, pan: State::Idle, rotation: State::Idle }),
    {
        Tracker { pinch: State::Idle, pan: State::Idle, rotation: State::Idle }
    }

    /// The state of one kind.
    #[verifier::when_used_as_spec(spec_state)]
    pub fn state(self, kind: Kind) -> (r: State)
        ensures
            r == self.spec_state(kind),
    {
        match kind {
            Kind::Pinch => self.pinch,
            Kind::Pan => self.pan,
            Kind::Rotation => self.rotation,
        }
    }

    /// Takes one event.
    ///
    /// Returns `Ok` exactly where the event is in sequence for its kind, and
    /// otherwise the report of it. Either way the tracker moves on as
    /// [`Tracker::after`] says: an offence gives up the episode of its kind.
    pub fn accept(&mut self, event: &Event) -> (r: Result<(), Malformed>)
        ensures
            *final(self) == old(self).after(*event),
            forall|kind: Kind|
                !event.is_of(kind) ==> final(self).spec_state(kind) == old(self).spec_state(kind),
            r is Ok <==> old(self).admits(*event),
            r == match old(self).offence(*event) {
                Some(malformed) => Err::<(), Malformed>(malformed),
                None => Ok::<(), Malformed>(()),
            },
    {
        let (kind, phase) = match (event.kind(), event.phase()) {
            (Some(kind), Some(phase)) => (kind, phase),
            _ => { return Ok(()); },
        };
        let state = self.state(kind);
        let (next, r) = match state.step(phase) {
            Some(next) => (next, Ok(())),
            None => (State::Idle, Err(Malformed { kind, phase, state })),
        };
        match kind {
            Kind::Pinch => { self.pinch = next; },
            Kind::Pan => { self.pan = next; },
            Kind::Rotation => { self.rotation = next; },
        }
        r
    }

    /// Takes the events of a stream one after another, up to the first that
    /// is out of sequence.
    ///
    /// Returns `Ok` exactly where the whole stream is in sequence; the
    /// tracker has then taken all of it. Otherwise the rejection names the
    /// first offending event, and the tracker has taken the stream up to and
    /// including that event.
    pub fn accept_all(&mut self, events: &[Event]) -> (r: Result<(), Rejection>)
        ensures
            r is Ok <==> old(self).admits_all(events@),
            r is Ok ==> *final(self) == old(self).after_all(events@),
            r matches Err(rejection) ==> {
                &&& rejection.index < events@.len()
                &&& old(self).admits_all(events@.take(rejection.index as int))
                &&& old(self).after_all(events@.take(rejection.index as int)).offence(
                    events@[rejection.index as int],
                ) == Some(rejection.cause)
                &&& *final(self) == old(self).after_all(events@.take(rejection.index + 1))
            },
    {
        let mut index: usize = 0;
        while index < events.len()
            invariant
                index <= events.len(),
                old(self).admits_all(events@.take(index as int)),
                *self == old(self).after_all(events@.take(index as int)),
            decreases events.len() - index,
        {
            proof {
                assert(events@.take(index + 1).drop_last() =~= events@.take(index as int));
            }
            match self.accept(&events[index]) {
                Ok(()) => {},
                Err(cause) => {
                    proof {
                        lemma_admitted_cut(*old(self), events@, index + 1);
                    }
                    return Err(Rejection { index, cause });
                },
            }
            index = index + 1;
        }
        proof {
            assert(events@.take(index as int) =~= events@);
        }
        Ok(())
    }
}

/// A stream that is in sequence as a whole is in sequence up to every cut.
pub proof fn lemma_admitted_cut(tracker: Tracker, events: Seq<Event>, k: int)
    requires
        0 <= k <= events.len(),
    ensures
        tracker.admits_all(events) ==> tracker.admits_all(events.take(k)),
    decreases events.len(),
{
    if k == events.len() {
        assert(events.take(k) =~= events);
    } else {
        assert(events.drop_last().take(k) =~= events.take(k));
        lemma_admitted_cut(tracker, events.drop_last(), k);
    }
}

/// Adding one phase to a run is taking one more step.
proof fn lemma_run_push(start: State, phases: Seq<Phase>, phase: Phase)
    ensures
        run(start, phases.push(phase)) == match run(start, phases) {
            Some(state) => state.spec_step(phase),
            None => None,
        },
{
    assert(phases.push(phase).drop_last() =~= phases);
}

/// The kinds run independently of one another: a stream is in sequence
/// exactly where, for every kind, the phases of that kind alone are, from
/// the state in which the tracker holds that kind; and each kind is left
/// where its own phases take it, whatever the other kinds and double taps
/// do in between. So episodes of different kinds may overlap freely, and
/// whatever holds of the phases of one machine holds of each kind.
pub proof fn lemma_kinds_run_independently(tracker: Tracker, events: Seq<Event>)
    ensures
        tracker.admits_all(events) <==> forall|kind: Kind|
            run(tracker.spec_state(kind), #[trigger] phases_of(events, kind)) is Some,
        tracker.admits_all(events) ==> forall|kind: Kind|
            run(tracker.spec_state(kind), #[trigger] phases_of(events, kind)) == Some(
                tracker.after_all(events).spec_state(kind),
            ),
    decreases events.len(),
{
    if events.len() > 0 {
        let before = events.drop_last();
        let here = tracker.after_all(before);
        lemma_kinds_run_independently(tracker, before);
        assert forall|kind: Kind, phase: Phase|
            run(tracker.spec_state(kind), #[trigger] phases_of(before, kind).push(phase))
                == match run(tracker.spec_state(kind), phases_of(before, kind)) {
                Some(state) => state.spec_step(phase),
                None => None,
            } by {
            lemma_run_push(tracker.spec_state(kind), phases_of(before, kind), phase);
        }
        if forall|kind: Kind|
            run(tracker.spec_state(kind), #[trigger] phases_of(events, kind)) is Some {
            assert forall|kind: Kind|
                run(tracker.spec_state(kind), #[trigger] phases_of(before, kind)) is Some by {
                assert(run(tracker.spec_state(kind), phases_of(events, kind)) is Some);
            }
            assert(run(tracker.pinch, phases_of(events, Kind::Pinch)) is Some);
            assert(run(tracker.pan, phases_of(events, Kind::Pan)) is Some);
            assert(run(tracker.rotation, phases_of(events, Kind::Rotation)) is Some);
            assert(here.admits(events.last()));
        }
        if tracker.admits_all(events) {
            assert(run(tracker.pinch, phases_of(before, Kind::Pinch)) == Some(here.pinch));
            assert(run(tracker.pan, phases_of(before, Kind::Pan)) == Some(here.pan));
            assert(run(tracker.rotation, phases_of(before, Kind::Rotation)) == Some(
                here.rotation,
            ));
        }
    }
}

/// For every kind: where the phases of that kind form one episode,
/// `[Started, Changed*, Ended | Cancelled]`, and the kind was idle, the
/// stream is accepted and leaves the kind idle again, as long as the other
/// kinds are in sequence themselves.
pub proof fn lemma_episode_of_a_kind_is_accepted(tracker: Tracker, events: Seq<Event>, kind: Kind)
    requires
        tracker.spec_state(kind) == State::Idle,
        is_episode(phases_of(events, kind)),
        forall|other: Kind|
            other != kind ==> run(tracker.spec_state(other), #[trigger] phases_of(events, other))
                is Some,
    ensures
        tracker.admits_all(events),
        tracker.after_all(events).spec_state(kind) == State::Idle,
{
    lemma_episode_is_one_round_trip(phases_of(events, kind));
    lemma_kinds_run_independently(tracker, events);
}

/// In a stream that is in sequence, a kind never starts twice in a row:
/// between two `Started` phases of one kind stands a terminal phase of that
/// kind. The positions count the phases of that kind only.
pub proof fn lemma_kind_started_needs_terminal_before_next(
    tracker: Tracker,
    events: Seq<Event>,
    kind: Kind,
    i: int,
    j: int,
)
    requires
        tracker.admits_all(events),
        0 <= i < j < phases_of(events, kind).len(),
        phases_of(events, kind)[i] == Phase::Started,
        phases_of(events, kind)[j] == Phase::Started,
    ensures
        j > i + 1,
        exists|k: int| i < k < j && (#[trigger] phases_of(events, kind)[k]).spec_is_terminal(),
{
    lemma_kinds_run_independently(tracker, events);
    lemma_started_needs_terminal_before_next(
        tracker.spec_state(kind),
        phases_of(events, kind),
        i,
        j,
    );
}

} // verus!
