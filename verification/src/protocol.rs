//! The sequencing protocol of a phased gesture.
//!
//! The phases of one gesture kind form episodes: one `Started`, any number of
//! `Changed`, then one of `Ended` and `Cancelled`. A [`State`] follows one
//! kind through its episodes, and [`check_episode`] holds a whole sequence of
//! phases against the shape of a single episode.
use crate::gesture::Phase;
use vstd::prelude::*;

verus! {

/// Where one gesture kind stands in its episode.
#[derive(Debug, Clone, Copy, PartialEq, Eq, Structural)]
pub enum State {
    /// No episode is open.
    Idle,
    /// An episode has started and has not changed yet.
    Started,
    /// An episode has started and has changed at least once.
    Changed,
}

impl State {
    /// Whether an episode is open in this state.
    pub open spec fn spec_is_open(self) -> bool {
        self != State::Idle
    }

    /// The state that follows when `phase` arrives in this state, or `None`
    /// where the protocol does not allow that phase here.
    pub open spec fn spec_step(self, phase: Phase) -> Option<State> {
        match (self, phase) {
            (State::Idle, Phase::Started) => Some(State::Started),
            (State::Started, Phase::Changed) => Some(State::Changed),
            (State::Changed, Phase::Changed) => Some(State::Changed),
            (State::Started, Phase::Ended) => Some(State::Idle),
            (State::Started, Phase::Cancelled) => Some(State::Idle),
            (State::Changed, Phase::Ended) => Some(State::Idle),
            (State::Changed, Phase::Cancelled) => Some(State::Idle),
            _ => None,
        }
    }

    /// Whether an episode is open in this state.
    #[verifier::when_used_as_spec(spec_is_open)]
    pub fn is_open(self) -> (r: bool)
        ensures
            r == self.spec_is_open(),
    {
        match self {
            State::Idle => false,
            State::Started | State::Changed => true,
        }
    }

    /// Takes one phase: the state that follows, or `None` where the phase is
    /// out of sequence.
    #[verifier::when_used_as_spec(spec_step)]
    pub fn step(self, phase: Phase) -> (r: Option<State>)
        ensures
            r == self.spec_step(phase),
    {
        match phase {
            Phase::Started => if self.is_open() {
                None
            } else {
                Some(State::Started)
            },
            Phase::Changed => if self.is_open() {
                Some(State::Changed)
            } else {
                None
            },
            Phase::Ended | Phase::Cancelled => if self.is_open() {
                Some(State::Idle)
            } else {
                None
            },
        }
    }
}

/// The state in which `phases`, taken one after another from `start`, leave
/// a gesture kind, or `None` where one of them is out of sequence.
pub open spec fn run(start: State, phases: Seq<Phase>) -> Option<State>
    decreases phases.len(),
{
    if phases.len() == 0 {
        Some(start)
    } else {
        match run(start, phases.drop_last()) {
            Some(state) => state.spec_step(phases.last()),
            None => None,
        }
    }
}

/// The shape `[Started, Changed*]`: an episode that is still open.
pub open spec fn is_opening(phases: Seq<Phase>) -> bool {
    &&& phases.len() >= 1
    &&& phases[0] == Phase::Started
    &&& forall|i: int| 0 < i < phases.len() ==> phases[i] == Phase::Changed
}

/// The shape `[Started, Changed*, Ended | Cancelled]`: one whole episode.
pub open spec fn is_episode(phases: Seq<Phase>) -> bool {
    &&& phases.len() >= 2
    &&& is_opening(phases.drop_last())
    &&& phases.last().spec_is_terminal()
}

/// Whether `phases` is how an episode begins: nothing yet, an open episode,
/// or a whole one.
pub open spec fn is_episode_prefix(phases: Seq<Phase>) -> bool {
    phases.len() == 0 || is_opening(phases) || is_episode(phases)
}

/// Why a sequence of phases is not one episode.
#[derive(Debug, Clone, Copy, PartialEq, Eq, Structural)]
pub enum EpisodeError {
    /// The phase at `index` is the first that no episode has at that place
    /// after the phases before it.
    OutOfSequence {
        /// The position of the offending phase.
        index: usize,
    },
    /// Every phase is in sequence, and the terminal phase is missing.
    Unfinished,
}

/// Holds a sequence of phases against the shape of one episode.
///
/// Returns `Ok` exactly for `[Started, Changed*, Ended | Cancelled]`. A
/// sequence that begins as an episode does and stops early is `Unfinished`;
/// any other is `OutOfSequence` at its first offending phase.
pub fn check_episode(phases: &[Phase]) -> (r: Result<(), EpisodeError>)
    ensures
        r is Ok <==> is_episode(phases@),
        r == Err::<(), EpisodeError>(EpisodeError::Unfinished) <==> (phases@.len() == 0
            || is_opening(phases@)),
        forall|index: usize|
            r == Err::<(), EpisodeError>(EpisodeError::OutOfSequence { index }) <==> {
                &&& index < phases@.len()
                &&& is_episode_prefix(phases@.take(index as int))
                &&& !is_episode_prefix(phases@.take(index + 1))
            },
{
    let mut state = State::Idle;
    let mut index: usize = 0;
    while index < phases.len()
        invariant
            index <= phases.len(),
            index == 0 ==> state == State::Idle,
            index > 0 && state == State::Idle ==> is_episode(phases@.take(index as int)),
            state.spec_is_open() ==> is_opening(phases@.take(index as int)),
        decreases phases.len() - index,
    {
        let ghost before = phases@.take(index as int);
        let ghost upto = phases@.take(index + 1);
        assert(upto.drop_last() =~= before);
        assert(upto.last() == phases@[index as int]);
        let next = if index > 0 && !state.is_open() {
            None
        } else {
            state.step(phases[index])
        };
        match next {
            Some(next) => {
                state = next;
                index = index + 1;
            },
            None => {
                proof {
                    if index > 0 && state == State::Idle {
                        assert(before.last().spec_is_terminal());
                        assert(before[index - 1] == upto[index - 1]);
                        assert(before.drop_last()[0] == before[0]);
                    }
                    assert(!is_episode_prefix(upto));
                    lemma_first_offence_is_unique(phases@, index as int);
                    lemma_not_a_prefix(phases@, index + 1);
                }
                return Err(EpisodeError::OutOfSequence { index });
            },
        }
    }
    proof {
        assert(phases@.take(index as int) =~= phases@);
        lemma_every_prefix_fits(phases@);
    }
    if index > 0 && !state.is_open() {
        Ok(())
    } else {
        Err(EpisodeError::Unfinished)
    }
}

/// What begins as an episode does, does so at every length: the shapes are
/// closed under cutting the end off.
pub proof fn lemma_prefix_of_prefix(phases: Seq<Phase>, k: int)
    requires
        is_episode_prefix(phases),
        0 <= k <= phases.len(),
    ensures
        is_episode_prefix(phases.take(k)),
        k < phases.len() ==> k == 0 || is_opening(phases.take(k)),
{
    if k == phases.len() {
        assert(phases.take(k) =~= phases);
    } else if k > 0 {
        if is_episode(phases) {
            assert(phases.drop_last().take(k) =~= phases.take(k));
            assert forall|i: int| 0 <= i < k implies #[trigger] phases.take(k)[i]
                == phases.drop_last()[i] by {}
        }
    }
}

/// In a sequence that begins as an episode does, every cut does.
proof fn lemma_every_prefix_fits(phases: Seq<Phase>)
    requires
        is_episode_prefix(phases),
    ensures
        forall|k: int| 0 <= k <= phases.len() ==> is_episode_prefix(#[trigger] phases.take(k)),
{
    assert forall|k: int| 0 <= k <= phases.len() implies is_episode_prefix(
        #[trigger] phases.take(k),
    ) by {
        lemma_prefix_of_prefix(phases, k);
    }
}

/// Once a cut of `phases` no longer begins as an episode does, neither does
/// `phases`, nor any longer cut.
proof fn lemma_not_a_prefix(phases: Seq<Phase>, k: int)
    requires
        0 <= k <= phases.len(),
        !is_episode_prefix(phases.take(k)),
    ensures
        !is_episode_prefix(phases),
        !is_episode(phases),
        !is_opening(phases),
        phases.len() > 0,
        forall|m: int| k <= m <= phases.len() ==> !is_episode_prefix(#[trigger] phases.take(m)),
{
    if is_episode_prefix(phases) {
        lemma_prefix_of_prefix(phases, k);
    }
    assert forall|m: int| k <= m <= phases.len() implies !is_episode_prefix(
        #[trigger] phases.take(m),
    ) by {
        if is_episode_prefix(phases.take(m)) {
            lemma_prefix_of_prefix(phases.take(m), k);
            assert(phases.take(m).take(k) =~= phases.take(k));
        }
    }
}

/// The first offending position is the only `index` whose cut before it
/// begins as an episode does while the cut after it does not.
proof fn lemma_first_offence_is_unique(phases: Seq<Phase>, index: int)
    requires
        0 <= index < phases.len(),
        is_episode_prefix(phases.take(index)),
        !is_episode_prefix(phases.take(index + 1)),
    ensures
        forall|other: int|
            0 <= other < phases.len() && is_episode_prefix(#[trigger] phases.take(other))
                && !is_episode_prefix(phases.take(other + 1)) ==> other == index,
{
    assert forall|other: int|
        0 <= other < phases.len() && is_episode_prefix(#[trigger] phases.take(other))
            && !is_episode_prefix(phases.take(other + 1)) implies other == index by {
        if other < index {
            assert(phases.take(index).take(other + 1) =~= phases.take(other + 1));
            lemma_not_a_prefix(phases.take(index), other + 1);
            assert(phases.take(index).take(index) =~= phases.take(index));
        } else if other > index {
            assert(phases.take(other).take(index + 1) =~= phases.take(index + 1));
            lemma_not_a_prefix(phases.take(other), index + 1);
            assert(phases.take(other).take(other) =~= phases.take(other));
        }
    }
}

/// A run that succeeds on the whole of `phases` succeeds on every cut of it.
pub proof fn lemma_run_of_cut(start: State, phases: Seq<Phase>, k: int)
    requires
        0 <= k <= phases.len(),
        run(start, phases) is Some,
    ensures
        run(start, phases.take(k)) is Some,
    decreases phases.len(),
{
    if k == phases.len() {
        assert(phases.take(k) =~= phases);
    } else {
        assert(phases.drop_last().take(k) =~= phases.take(k));
        lemma_run_of_cut(start, phases.drop_last(), k);
    }
}

/// A run over one phase more is the run so far, followed by one step.
pub proof fn lemma_run_next(start: State, phases: Seq<Phase>, k: int)
    requires
        0 <= k < phases.len(),
    ensures
        run(start, phases.take(k + 1)) == match run(start, phases.take(k)) {
            Some(state) => state.spec_step(phases[k]),
            None => None,
        },
{
    assert(phases.take(k + 1).drop_last() =~= phases.take(k));
}

/// From `Idle`, an open episode leaves the machine in `Started` after its
/// first phase and in `Changed` after any later one.
pub proof fn lemma_opening_runs_open(phases: Seq<Phase>)
    requires
        is_opening(phases),
    ensures
        run(State::Idle, phases) == Some(
            if phases.len() == 1 {
                State::Started
            } else {
                State::Changed
            },
        ),
    decreases phases.len(),
{
    if phases.len() == 1 {
        assert(run(State::Idle, phases.drop_last()) == Some(State::Idle));
    } else {
        lemma_opening_runs_open(phases.drop_last());
    }
}

/// The machine accepts exactly the grammar: `phases` is one episode,
/// `[Started, Changed*, Ended | Cancelled]`, if and only if it takes the
/// machine from `Idle` back to `Idle` without an offence and without passing
/// through `Idle` on the way. Every other sequence either holds a phase that
/// is out of sequence, leaves its episode open, or closes one early.
pub proof fn lemma_episode_is_one_round_trip(phases: Seq<Phase>)
    ensures
        is_episode(phases) <==> {
            &&& phases.len() > 0
            &&& run(State::Idle, phases) == Some(State::Idle)
            &&& forall|k: int|
                0 < k < phases.len() ==> run(State::Idle, #[trigger] phases.take(k)) != Some(
                    State::Idle,
                )
        },
{
    if is_episode(phases) {
        lemma_opening_runs_open(phases.drop_last());
        assert forall|k: int| 0 < k < phases.len() implies run(
            State::Idle,
            #[trigger] phases.take(k),
        ) != Some(State::Idle) by {
            lemma_prefix_of_prefix(phases, k);
            lemma_opening_runs_open(phases.take(k));
        }
    }
    if phases.len() > 0 && run(State::Idle, phases) == Some(State::Idle) && (forall|k: int|
        0 < k < phases.len() ==> run(State::Idle, #[trigger] phases.take(k)) != Some(State::Idle)) {
        assert(phases.take(0) =~= Seq::<Phase>::empty());
        if phases.len() == 1 {
            assert(phases.drop_last() =~= Seq::<Phase>::empty());
        } else {
            lemma_round_trip_stays_open(phases, phases.len() - 1);
            assert(phases.take(phases.len() - 1) =~= phases.drop_last());
            lemma_opening_runs_open(phases.drop_last());
        }
    }
}

/// On a round trip, every cut short of the whole is an open episode.
proof fn lemma_round_trip_stays_open(phases: Seq<Phase>, k: int)
    requires
        0 < k < phases.len(),
        run(State::Idle, phases) is Some,
        forall|m: int|
            0 < m < phases.len() ==> run(State::Idle, #[trigger] phases.take(m)) != Some(
                State::Idle,
            ),
    ensures
        is_opening(phases.take(k)),
    decreases k,
{
    lemma_run_of_cut(State::Idle, phases, k);
    lemma_run_next(State::Idle, phases, k - 1);
    if k == 1 {
        assert(phases.take(0) =~= Seq::<Phase>::empty());
    } else {
        lemma_round_trip_stays_open(phases, k - 1);
        lemma_opening_runs_open(phases.take(k - 1));
        assert forall|i: int| 0 < i < k implies #[trigger] phases.take(k)[i]
            == Phase::Changed by {
            if i < k - 1 {
                assert(phases.take(k - 1)[i] == Phase::Changed);
            }
        }
    }
}

/// After a `Started` at position `i`, the episode stays open for as long as
/// no terminal phase arrives.
proof fn lemma_open_since_started(start: State, phases: Seq<Phase>, i: int, m: int)
    requires
        run(start, phases) is Some,
        0 <= i < m <= phases.len(),
        phases[i] == Phase::Started,
        forall|k: int| i < k < m ==> !(#[trigger] phases[k]).spec_is_terminal(),
    ensures
        run(start, phases.take(m)) is Some,
        run(start, phases.take(m))->0.spec_is_open(),
    decreases m - i,
{
    lemma_run_of_cut(start, phases, m);
    lemma_run_of_cut(start, phases, m - 1);
    lemma_run_next(start, phases, m - 1);
    if m > i + 1 {
        lemma_open_since_started(start, phases, i, m - 1);
        assert(!phases[m - 1].spec_is_terminal());
    }
}

/// After a terminal phase at position `i`, the machine stays in `Idle` for
/// as long as no `Started` arrives: nothing else is accepted there.
proof fn lemma_idle_since_terminal(start: State, phases: Seq<Phase>, i: int, m: int)
    requires
        run(start, phases) is Some,
        0 <= i < m <= phases.len(),
        phases[i].spec_is_terminal(),
        forall|k: int| i < k < m ==> #[trigger] phases[k] != Phase::Started,
    ensures
        run(start, phases.take(m)) == Some(State::Idle),
    decreases m - i,
{
    lemma_run_of_cut(start, phases, m);
    lemma_run_of_cut(start, phases, m - 1);
    lemma_run_next(start, phases, m - 1);
    if m > i + 1 {
        lemma_idle_since_terminal(start, phases, i, m - 1);
        assert(phases[m - 1] != Phase::Started);
    }
}

/// In a sequence that the machine accepts, from whatever state it set out,
/// two `Started` phases never follow one another directly: a terminal phase
/// stands between any two of them.
pub proof fn lemma_started_needs_terminal_before_next(
    start: State,
    phases: Seq<Phase>,
    i: int,
    j: int,
)
    requires
        run(start, phases) is Some,
        0 <= i < j < phases.len(),
        phases[i] == Phase::Started,
        phases[j] == Phase::Started,
    ensures
        j > i + 1,
        exists|k: int| i < k < j && (#[trigger] phases[k]).spec_is_terminal(),
{
    if forall|k: int| i < k < j ==> !(#[trigger] phases[k]).spec_is_terminal() {
        lemma_open_since_started(start, phases, i, j);
        lemma_run_next(start, phases, j);
        lemma_run_of_cut(start, phases, j + 1);
    }
}

/// In a sequence that the machine accepts, a terminal phase closes its
/// episode for good: no second terminal phase, `Ended` or `Cancelled`,
/// follows it before a `Started` has opened the next episode.
pub proof fn lemma_terminal_needs_started_before_next(
    start: State,
    phases: Seq<Phase>,
    i: int,
    j: int,
)
    requires
        run(start, phases) is Some,
        0 <= i < j < phases.len(),
        phases[i].spec_is_terminal(),
        phases[j].spec_is_terminal(),
    ensures
        j > i + 1,
        exists|k: int| i < k < j && #[trigger] phases[k] == Phase::Started,
{
    if forall|k: int| i < k < j ==> #[trigger] phases[k] != Phase::Started {
        lemma_idle_since_terminal(start, phases, i, j);
        lemma_run_next(start, phases, j);
        lemma_run_of_cut(start, phases, j + 1);
    }
}

/// One episode has one terminal phase, its last, and that phase is either
/// `Ended` or `Cancelled`, never both.
pub proof fn lemma_episode_has_one_terminal(phases: Seq<Phase>)
    requires
        is_episode(phases),
    ensures
        forall|i: int|
            0 <= i < phases.len() ==> ((#[trigger] phases[i]).spec_is_terminal() <==> i
                == phases.len() - 1),
        (phases.last() == Phase::Ended) != (phases.last() == Phase::Cancelled),
{
    assert forall|i: int| 0 <= i < phases.len() - 1 implies !(#[trigger] phases[i]).spec_is_terminal() by {
        assert(phases[i] == phases.drop_last()[i]);
    }
}

} // verus!
