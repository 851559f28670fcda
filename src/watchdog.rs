//! The control loop's state: configuration, liveness records and machine state.
use vstd::prelude::*;
use crate::liveness::{last_seen_of, observed, staleness_at, watched, HostEntry, LivenessTracker};
use crate::machine::{action_of, initial_state, next_state, transition, Action, WatchdogState};
use crate::quorum::{neighbour_alive, neighbour_alive_at, universe_alive, universe_alive_at};

verus! {

/// Settings read once at startup.
#[derive(Clone, Debug)]
pub struct Config {
    /// Address identity of the supervised neighbour.
    pub neighbour: u128,
    /// Address identities of the universe members.
    pub universe: Vec<u128>,
    /// Staleness, in time units, from which the neighbour counts as dead.
    pub neighbour_timeout: u64,
    /// Decide resets but never perform them.
    pub dry_run: bool,
}

/// A running watchdog: what it watches, what it has seen, where it stands.
pub struct Watchdog {
    neighbour: u128,
    neighbour_timeout: u64,
    dry_run: bool,
    tracker: LivenessTracker,
    state: WatchdogState,
}

impl Watchdog {
    pub closed spec fn neighbour_spec(&self) -> u128 {
        self.neighbour
    }

    pub closed spec fn timeout_spec(&self) -> u64 {
        self.neighbour_timeout
    }

    pub closed spec fn dry_run_spec(&self) -> bool {
        self.dry_run
    }

    /// The liveness records.
    pub closed spec fn records(&self) -> Seq<HostEntry> {
        self.tracker@
    }

    /// The machine state.
    pub closed spec fn state_spec(&self) -> WatchdogState {
        self.state
    }

    pub closed spec fn wf(&self) -> bool {
        self.tracker.wf()
    }

    /// Universe signal at `now`, from the current records.
    pub open spec fn universe_alive_spec(&self, now: u64) -> bool {
        universe_alive_at(self.records(), now)
    }

    /// Neighbour signal at `now`, from the current records.
    pub open spec fn neighbour_alive_spec(&self, now: u64) -> bool {
        neighbour_alive_at(self.records(), self.neighbour_spec(), now, self.timeout_spec())
    }

    /// A watchdog in its initial state that has seen no host yet.
    pub fn new(config: &Config) -> (r: Self)
        ensures
            r.wf(),
            r.state_spec() == initial_state(),
            r.neighbour_spec() == config.neighbour,
            r.timeout_spec() == config.neighbour_timeout,
            r.dry_run_spec() == config.dry_run,
            forall|a: u128| #[trigger]
                watched(r.records(), a) <==> (a == config.neighbour || config.universe@.contains(
                    a,
                )),
            forall|i: int|
                0 <= i < r.records().len() ==> (#[trigger] r.records()[i]).universe
                    == config.universe@.contains(r.records()[i].addr)
                    && r.records()[i].last_seen is None,
    {
        Watchdog {
            neighbour: config.neighbour,
            neighbour_timeout: config.neighbour_timeout,
            dry_run: config.dry_run,
            tracker: LivenessTracker::new(config.neighbour, &config.universe),
            state: WatchdogState::LostUniverse,
        }
    }

    /// Feeds one successful observation of `addr` at time `t` to the records.
    pub fn observe(&mut self, addr: u128, t: u64)
        requires
            old(self).wf(),
        ensures
            final(self).wf(),
            final(self).state_spec() == old(self).state_spec(),
            final(self).neighbour_spec() == old(self).neighbour_spec(),
            final(self).timeout_spec() == old(self).timeout_spec(),
            final(self).dry_run_spec() == old(self).dry_run_spec(),
            final(self).records().len() == old(self).records().len(),
            forall|i: int|
                0 <= i < old(self).records().len() ==> #[trigger] final(self).records()[i] == if old(
                    self,
                ).records()[i].addr == addr {
                    observed(old(self).records()[i], t)
                } else {
                    old(self).records()[i]
                },
    {
        self.tracker.record(addr, t);
    }

    /// One evaluation at time `now`: both signals are taken from the records as
    /// they stand, the table is applied, and the action to perform, if any, is
    /// returned.
    pub fn tick(&mut self, now: u64) -> (r: Option<Action>)
        requires
            old(self).wf(),
        ensures
            final(self).wf(),
            final(self).records() == old(self).records(),
            final(self).neighbour_spec() == old(self).neighbour_spec(),
            final(self).timeout_spec() == old(self).timeout_spec(),
            final(self).dry_run_spec() == old(self).dry_run_spec(),
            final(self).state_spec() == next_state(
                old(self).state_spec(),
                old(self).universe_alive_spec(now),
                old(self).neighbour_alive_spec(now),
            ),
            r == action_of(
                old(self).state_spec(),
                old(self).universe_alive_spec(now),
                old(self).neighbour_alive_spec(now),
                old(self).dry_run_spec(),
            ),
    {
        let u = universe_alive(&self.tracker, now);
        let n = neighbour_alive(&self.tracker, self.neighbour, now, self.neighbour_timeout);
        let (next, action) = transition(self.state, u, n, self.dry_run);
        self.state = next;
        action
    }

    /// The current machine state.
    pub fn state(&self) -> (r: WatchdogState)
        ensures
            r == self.state_spec(),
    {
        self.state
    }

    /// Whether the universe is trusted at `now`.
    pub fn is_universe_alive(&self, now: u64) -> (r: bool)
        ensures
            r == self.universe_alive_spec(now),
    {
        universe_alive(&self.tracker, now)
    }

    /// Whether the neighbour answers at `now`.
    pub fn is_neighbour_alive(&self, now: u64) -> (r: bool)
        requires
            self.wf(),
        ensures
            r == self.neighbour_alive_spec(now),
    {
        neighbour_alive(&self.tracker, self.neighbour, now, self.neighbour_timeout)
    }

    /// Time since `addr` was last observed, `None` when never.
    pub fn staleness(&self, addr: u128, now: u64) -> (r: Option<u64>)
        requires
            self.wf(),
        ensures
            r == staleness_at(last_seen_of(self.records(), addr), now),
    {
        self.tracker.staleness(addr, now)
    }
}

} // verus!
