//! The two liveness signals derived from a tracker snapshot.
use vstd::prelude::*;
use crate::liveness::{
    distinct_addrs, fresh_members, fresh_universe_count, last_seen_of, lemma_fresh_count_is_members,
    seen_within, staleness_at, HostEntry, LivenessTracker,
};

verus! {

/// A universe member counts towards the quorum when seen less than this many
/// time units ago.
pub const UNIVERSE_WINDOW: u64 = 30;

/// How many fresh universe members make the universe trusted.
pub const QUORUM: usize = 2;

/// Default neighbour timeout, in time units.
pub const DEFAULT_NEIGHBOUR_TIMEOUT: u64 = 600;

/// At least `QUORUM` universe members were seen within the universe window.
pub open spec fn universe_alive_at(s: Seq<HostEntry>, now: u64) -> bool {
    fresh_universe_count(s, now, UNIVERSE_WINDOW) >= QUORUM
}

/// The neighbour was seen less than `timeout` units before `now`.
pub open spec fn neighbour_alive_at(s: Seq<HostEntry>, neighbour: u128, now: u64, timeout: u64) -> bool {
    seen_within(last_seen_of(s, neighbour), now, timeout)
}

/// Whether local observations can be trusted: true iff at least two universe
/// members have a staleness below thirty units.
pub fn universe_alive(tracker: &LivenessTracker, now: u64) -> (r: bool)
    ensures
        r == universe_alive_at(tracker@, now),
{
    tracker.fresh_universe_members(now, UNIVERSE_WINDOW) >= QUORUM
}

/// Whether the neighbour answers: true iff its staleness is strictly below
/// `timeout`; a neighbour never seen is not alive.
pub fn neighbour_alive(tracker: &LivenessTracker, neighbour: u128, now: u64, timeout: u64) -> (r: bool)
    requires
        tracker.wf(),
    ensures
        r == neighbour_alive_at(tracker@, neighbour, now, timeout),
{
    match tracker.staleness(neighbour, now) {
        None => false,
        Some(d) => d < timeout,
    }
}

/// The universe is alive exactly when at least two distinct universe members
/// have a staleness below the window; with none or one it is not.
pub proof fn lemma_universe_alive_iff_quorum(s: Seq<HostEntry>, now: u64)
    requires
        distinct_addrs(s),
    ensures
        universe_alive_at(s, now) <==> fresh_members(s, now, UNIVERSE_WINDOW).len() >= 2,
        fresh_members(s, now, UNIVERSE_WINDOW).len() <= 1 ==> !universe_alive_at(s, now),
{
    lemma_fresh_count_is_members(s, now, UNIVERSE_WINDOW);
}

/// The neighbour is alive exactly when it was seen and its staleness is
/// strictly below the timeout: a staleness equal to the timeout is dead.
pub proof fn lemma_neighbour_alive_iff_fresh(s: Seq<HostEntry>, neighbour: u128, now: u64, timeout: u64)
    ensures
        neighbour_alive_at(s, neighbour, now, timeout) <==> (last_seen_of(s, neighbour) is Some
            && staleness_at(last_seen_of(s, neighbour), now)->0 < timeout),
        staleness_at(last_seen_of(s, neighbour), now) == Some(timeout)
            ==> !neighbour_alive_at(s, neighbour, now, timeout),
{
}

} // verus!
