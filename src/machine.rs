//! The watchdog's three-state Mealy machine.
use vstd::prelude::*;

verus! {

/// Where the watchdog stands towards its neighbour.
#[derive(Clone, Copy, Debug, PartialEq, Eq, Structural)]
pub enum WatchdogState {
    /// Too few universe members are visible: local observations are not trusted.
    LostUniverse,
    /// The universe is visible, the neighbour is not (yet) under supervision.
    Idle,
    /// The neighbour was seen alive under a trusted universe and is supervised.
    Armed,
}

/// What the control loop must do after a transition.
#[derive(Clone, Copy, Debug, PartialEq, Eq, Structural)]
pub enum Action {
    /// Pulse the neighbour's reset line.
    Reset,
    /// The reset was decided, but dry-run mode suppresses it: report only.
    ReportOnly,
}

/// The state every run of the watchdog starts in.
pub open spec fn initial_state() -> WatchdogState {
    WatchdogState::LostUniverse
}

/// The transition table: next state from the current state and the two signals.
pub open spec fn next_state(s: WatchdogState, universe_alive: bool, neighbour_alive: bool) -> WatchdogState {
    match s {
        WatchdogState::LostUniverse => {
            if universe_alive { WatchdogState::Idle } else { WatchdogState::LostUniverse }
        },
        WatchdogState::Idle => {
            if !universe_alive {
                WatchdogState::LostUniverse
            } else if neighbour_alive {
                WatchdogState::Armed
            } else {
                WatchdogState::Idle
            }
        },
        WatchdogState::Armed => {
            if !universe_alive {
                WatchdogState::LostUniverse
            } else if neighbour_alive {
                WatchdogState::Armed
            } else {
                WatchdogState::Idle
            }
        },
    }
}

/// A reset is decided exactly when an armed watchdog keeps its universe and
/// loses its neighbour.
pub open spec fn fires(s: WatchdogState, universe_alive: bool, neighbour_alive: bool) -> bool {
    s == WatchdogState::Armed && universe_alive && !neighbour_alive
}

/// The output of the table: the action that goes with a transition.
pub open spec fn action_of(
    s: WatchdogState,
    universe_alive: bool,
    neighbour_alive: bool,
    dry_run: bool,
) -> Option<Action> {
    if fires(s, universe_alive, neighbour_alive) {
        if dry_run { Some(Action::ReportOnly) } else { Some(Action::Reset) }
    } else {
        None
    }
}

/// The states visited from `s` under a sequence of (universe_alive,
/// neighbour_alive) inputs; the result starts with `s` and has one more
/// element than `inputs`.
pub open spec fn trace_from(s: WatchdogState, inputs: Seq<(bool, bool)>) -> Seq<WatchdogState>
    decreases inputs.len(),
{
    if inputs.len() == 0 {
        seq![s]
    } else {
        let prev = trace_from(s, inputs.drop_last());
        prev.push(next_state(prev.last(), inputs.last().0, inputs.last().1))
    }
}

/// The states of a watchdog run from its start.
pub open spec fn trace(inputs: Seq<(bool, bool)>) -> Seq<WatchdogState> {
    trace_from(initial_state(), inputs)
}

/// The starting state of a watchdog.
pub fn start_state() -> (r: WatchdogState)
    ensures
        r == initial_state(),
{
    WatchdogState::LostUniverse
}

/// One evaluation of the table: the next state, and the action that goes with it.
pub fn transition(
    s: WatchdogState,
    universe_alive: bool,
    neighbour_alive: bool,
    dry_run: bool,
) -> (r: (WatchdogState, Option<Action>))
    ensures
        r.0 == next_state(s, universe_alive, neighbour_alive),
        r.1 == action_of(s, universe_alive, neighbour_alive, dry_run),
{
    match s {
        WatchdogState::LostUniverse => {
            if universe_alive {
                (WatchdogState::Idle, None)
            } else {
                (WatchdogState::LostUniverse, None)
            }
        },
        WatchdogState::Idle => {
            if !universe_alive {
                (WatchdogState::LostUniverse, None)
            } else if neighbour_alive {
                (WatchdogState::Armed, None)
            } else {
                (WatchdogState::Idle, None)
            }
        },
        WatchdogState::Armed => {
            if !universe_alive {
                (WatchdogState::LostUniverse, None)
            } else if neighbour_alive {
                (WatchdogState::Armed, None)
            } else if dry_run {
                (WatchdogState::Idle, Some(Action::ReportOnly))
            } else {
                (WatchdogState::Idle, Some(Action::Reset))
            }
        },
    }
}

/// The states a watchdog passes through from its start under `inputs`: the
/// starting state, then the state after each (universe_alive, neighbour_alive)
/// pair in turn.
pub fn replay(inputs: &Vec<(bool, bool)>) -> (r: Vec<WatchdogState>)
    ensures
        r@ == trace(inputs@),
{
    let mut states: Vec<WatchdogState> = Vec::new();
    let mut s = start_state();
    states.push(s);
    assert(states@ == trace(inputs@.take(0)));
    let mut i: usize = 0;
    while i < inputs.len()
        invariant
            i <= inputs@.len(),
            states@ == trace(inputs@.take(i as int)),
            s == states@.last(),
        decreases inputs@.len() - i,
    {
        let (u, n) = inputs[i];
        assert(inputs@.take(i + 1).drop_last() == inputs@.take(i as int));
        let (next, _) = transition(s, u, n, true);
        s = next;
        states.push(s);
        i += 1;
    }
    assert(inputs@.take(inputs@.len() as int) == inputs@);
    states
}

/// A run is fixed by its inputs alone: it starts in `LostUniverse`, and each
/// state follows from the one before it and that step's two signals by the
/// transition table, with nothing else taken into account.
pub proof fn lemma_trace_follows_table(inputs: Seq<(bool, bool)>)
    ensures
        trace(inputs).len() == inputs.len() + 1,
        trace(inputs)[0] == WatchdogState::LostUniverse,
        forall|i: int|
            0 <= i < inputs.len() ==> #[trigger] trace(inputs)[i + 1] == next_state(
                trace(inputs)[i],
                inputs[i].0,
                inputs[i].1,
            ),
    decreases inputs.len(),
{
    if inputs.len() > 0 {
        let prev = inputs.drop_last();
        lemma_trace_follows_table(prev);
        assert forall|i: int| 0 <= i < inputs.len() implies #[trigger] trace(inputs)[i + 1]
            == next_state(trace(inputs)[i], inputs[i].0, inputs[i].1) by {
            if i < prev.len() {
                assert(trace(prev)[i + 1] == next_state(trace(prev)[i], prev[i].0, prev[i].1));
            }
        }
    }
}

/// A reset is decided on a step exactly when that step goes from `Armed` to
/// `Idle`, and a step decides at most one action.
pub proof fn lemma_reset_only_on_disarm(
    s: WatchdogState,
    universe_alive: bool,
    neighbour_alive: bool,
    dry_run: bool,
)
    ensures
        action_of(s, universe_alive, neighbour_alive, dry_run) is Some <==> (s
            == WatchdogState::Armed && next_state(s, universe_alive, neighbour_alive)
            == WatchdogState::Idle),
{
}

/// Along a whole run, step `i` decides a reset exactly when the run goes from
/// `Armed` at `i` to `Idle` at `i + 1`; staying in `Idle` never repeats it.
pub proof fn lemma_trace_resets_on_disarm(inputs: Seq<(bool, bool)>, dry_run: bool)
    ensures
        forall|i: int|
            0 <= i < inputs.len() ==> (action_of(
                #[trigger] trace(inputs)[i],
                inputs[i].0,
                inputs[i].1,
                dry_run,
            ) is Some <==> (trace(inputs)[i] == WatchdogState::Armed && trace(inputs)[i + 1]
                == WatchdogState::Idle)),
{
    lemma_trace_follows_table(inputs);
    assert forall|i: int| 0 <= i < inputs.len() implies (action_of(
        #[trigger] trace(inputs)[i],
        inputs[i].0,
        inputs[i].1,
        dry_run,
    ) is Some <==> (trace(inputs)[i] == WatchdogState::Armed && trace(inputs)[i + 1]
        == WatchdogState::Idle)) by {
        assert(trace(inputs)[i + 1] == next_state(trace(inputs)[i], inputs[i].0, inputs[i].1));
    }
}

/// `Armed` is entered only from `Idle`; never from `LostUniverse` directly.
pub proof fn lemma_armed_entered_from_idle(s: WatchdogState, universe_alive: bool, neighbour_alive: bool)
    ensures
        next_state(s, universe_alive, neighbour_alive) == WatchdogState::Armed ==> s
            == WatchdogState::Idle || s == WatchdogState::Armed,
        next_state(WatchdogState::LostUniverse, universe_alive, neighbour_alive)
            != WatchdogState::Armed,
{
}

/// Every run starts in `LostUniverse`, and whenever it is `Armed` it went
/// through `Idle` earlier, that is along `LostUniverse -> Idle -> Armed`.
pub proof fn lemma_armed_only_through_idle(inputs: Seq<(bool, bool)>)
    ensures
        trace(inputs)[0] == WatchdogState::LostUniverse,
        forall|i: int|
            0 <= i < trace(inputs).len() && #[trigger] trace(inputs)[i] == WatchdogState::Armed
                ==> exists|j: int| 0 < j < i && trace(inputs)[j] == WatchdogState::Idle,
{
    lemma_trace_follows_table(inputs);
    let t = trace(inputs);
    assert forall|i: int| 0 <= i < t.len() && #[trigger] t[i] == WatchdogState::Armed implies exists|
        j: int,
    | 0 < j < i && t[j] == WatchdogState::Idle by {
        lemma_idle_before(inputs, i);
    }
}

proof fn lemma_idle_before(inputs: Seq<(bool, bool)>, i: int)
    requires
        trace(inputs).len() == inputs.len() + 1,
        trace(inputs)[0] == WatchdogState::LostUniverse,
        forall|k: int|
            0 <= k < inputs.len() ==> #[trigger] trace(inputs)[k + 1] == next_state(
                trace(inputs)[k],
                inputs[k].0,
                inputs[k].1,
            ),
        0 <= i < trace(inputs).len(),
        trace(inputs)[i] == WatchdogState::Armed,
    ensures
        exists|j: int| 0 < j < i && trace(inputs)[j] == WatchdogState::Idle,
    decreases i,
{
    let t = trace(inputs);
    assert(i > 0);
    assert(t[(i - 1) + 1] == next_state(t[i - 1], inputs[i - 1].0, inputs[i - 1].1));
    if t[i - 1] == WatchdogState::Idle {
        assert(i - 1 > 0);
    } else {
        lemma_idle_before(inputs, i - 1);
        let j = choose|j: int| 0 < j < i - 1 && t[j] == WatchdogState::Idle;
        assert(0 < j < i);
    }
}

} // verus!
