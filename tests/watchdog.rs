use neighbourhood_watch::address::{first_ipv4, ipv4_identity, is_ipv4};
use neighbourhood_watch::liveness::LivenessTracker;
use neighbourhood_watch::machine::{replay, start_state, transition, Action, WatchdogState};
use neighbourhood_watch::quorum::{neighbour_alive, universe_alive, DEFAULT_NEIGHBOUR_TIMEOUT};
use neighbourhood_watch::watchdog::{Config, Watchdog};

use WatchdogState::{Armed, Idle, LostUniverse};

const NEIGHBOUR: u128 = 0xffff_0a00_0001;

fn universe5() -> Vec<u128> {
    vec![
        0xffff_0a00_0011,
        0xffff_0a00_0012,
        0xffff_0a00_0013,
        0xffff_0a00_0014,
        0xffff_0a00_0015,
    ]
}

fn config(dry_run: bool) -> Config {
    Config {
        neighbour: NEIGHBOUR,
        universe: universe5(),
        neighbour_timeout: DEFAULT_NEIGHBOUR_TIMEOUT,
        dry_run,
    }
}

/// Brings a watchdog to `Armed` at time 10, with three universe members and
/// the neighbour seen at time 10.
fn armed_watchdog(dry_run: bool) -> Watchdog {
    let mut w = Watchdog::new(&config(dry_run));
    let u = universe5();
    for &a in &u[..3] {
        w.observe(a, 10);
    }
    w.observe(NEIGHBOUR, 10);
    assert_eq!(w.tick(10), None);
    assert_eq!(w.state(), Idle);
    assert_eq!(w.tick(10), None);
    assert_eq!(w.state(), Armed);
    w
}

#[test]
fn table_lost_universe() {
    for n in [false, true] {
        assert_eq!(transition(LostUniverse, false, n, false), (LostUniverse, None));
        assert_eq!(transition(LostUniverse, true, n, false), (Idle, None));
    }
}

#[test]
fn table_idle() {
    for n in [false, true] {
        assert_eq!(transition(Idle, false, n, false), (LostUniverse, None));
    }
    assert_eq!(transition(Idle, true, true, false), (Armed, None));
    assert_eq!(transition(Idle, true, false, false), (Idle, None));
}

#[test]
fn table_armed() {
    for n in [false, true] {
        assert_eq!(transition(Armed, false, n, false), (LostUniverse, None));
        assert_eq!(transition(Armed, false, n, true), (LostUniverse, None));
    }
    assert_eq!(transition(Armed, true, true, false), (Armed, None));
    assert_eq!(transition(Armed, true, false, false), (Idle, Some(Action::Reset)));
    assert_eq!(transition(Armed, true, false, true), (Idle, Some(Action::ReportOnly)));
}

#[test]
fn starts_in_lost_universe() {
    assert_eq!(start_state(), LostUniverse);
    assert_eq!(Watchdog::new(&config(false)).state(), LostUniverse);
}

#[test]
fn replay_follows_table() {
    let inputs = vec![(true, true), (true, true), (true, false), (true, false), (false, false), (true, true)];
    assert_eq!(replay(&inputs), vec![LostUniverse, Idle, Armed, Idle, Idle, LostUniverse, Idle]);
    assert_eq!(replay(&inputs), replay(&inputs));
    assert_eq!(replay(&vec![]), vec![LostUniverse]);
}

#[test]
fn armed_never_directly_from_lost_universe() {
    let states = replay(&vec![(true, true), (false, true), (true, true), (true, true)]);
    assert_eq!(states, vec![LostUniverse, Idle, LostUniverse, Idle, Armed]);
    for w in states.windows(2) {
        if w[1] == Armed {
            assert!(w[0] == Idle || w[0] == Armed);
        }
    }
}

#[test]
fn reset_only_on_armed_to_idle() {
    for s in [LostUniverse, Idle, Armed] {
        for u in [false, true] {
            for n in [false, true] {
                let (next, action) = transition(s, u, n, false);
                assert_eq!(action.is_some(), s == Armed && next == Idle);
            }
        }
    }
}

#[test]
fn three_of_five_respond_universe_alive() {
    let mut w = Watchdog::new(&config(false));
    let u = universe5();
    w.observe(u[0], 95);
    w.observe(u[1], 92);
    w.observe(u[2], 90);
    assert!(w.is_universe_alive(100));
    assert_eq!(w.tick(100), None);
    assert_eq!(w.state(), Idle);
}

#[test]
fn one_of_five_responds_universe_dead() {
    let mut w = Watchdog::new(&config(false));
    w.observe(universe5()[3], 95);
    assert!(!w.is_universe_alive(100));
    assert_eq!(w.tick(100), None);
    assert_eq!(w.state(), LostUniverse);
}

#[test]
fn no_member_responds_universe_dead() {
    let w = Watchdog::new(&config(false));
    assert!(!w.is_universe_alive(0));
    assert!(!w.is_universe_alive(1000));
}

#[test]
fn universe_window_boundary() {
    let u = universe5();
    let mut t = LivenessTracker::new(NEIGHBOUR, &u);
    t.record(u[0], 100);
    t.record(u[1], 71);
    assert_eq!(t.fresh_universe_members(100, 30), 2);
    assert!(universe_alive(&t, 100));
    t.record(u[1], 70);
    assert_eq!(t.staleness(u[1], 100), Some(29));
    let mut t2 = LivenessTracker::new(NEIGHBOUR, &u);
    t2.record(u[0], 100);
    t2.record(u[1], 70);
    assert_eq!(t2.staleness(u[1], 100), Some(30));
    assert_eq!(t2.fresh_universe_members(100, 30), 1);
    assert!(!universe_alive(&t2, 100));
}

#[test]
fn duplicate_universe_member_counts_once() {
    let a: u128 = 0xffff_0a00_0011;
    let mut t = LivenessTracker::new(NEIGHBOUR, &vec![a, a]);
    t.record(a, 5);
    assert_eq!(t.fresh_universe_members(5, 30), 1);
    assert!(!universe_alive(&t, 5));
}

#[test]
fn neighbour_counts_as_universe_member_when_listed() {
    let a: u128 = 0xffff_0a00_0011;
    let mut t = LivenessTracker::new(NEIGHBOUR, &vec![a, NEIGHBOUR]);
    t.record(a, 5);
    t.record(NEIGHBOUR, 5);
    assert!(universe_alive(&t, 5));
    let mut t2 = LivenessTracker::new(NEIGHBOUR, &vec![a]);
    t2.record(a, 5);
    t2.record(NEIGHBOUR, 5);
    assert!(!universe_alive(&t2, 5));
}

#[test]
fn neighbour_seen_599_ago_is_alive() {
    let mut t = LivenessTracker::new(NEIGHBOUR, &universe5());
    t.record(NEIGHBOUR, 1);
    assert!(neighbour_alive(&t, NEIGHBOUR, 600, 600));
}

#[test]
fn neighbour_seen_601_ago_is_dead() {
    let mut t = LivenessTracker::new(NEIGHBOUR, &universe5());
    t.record(NEIGHBOUR, 1);
    assert!(!neighbour_alive(&t, NEIGHBOUR, 602, 600));
}

#[test]
fn neighbour_timeout_boundary_is_dead() {
    let mut t = LivenessTracker::new(NEIGHBOUR, &universe5());
    t.record(NEIGHBOUR, 1);
    assert_eq!(t.staleness(NEIGHBOUR, 601), Some(600));
    assert!(!neighbour_alive(&t, NEIGHBOUR, 601, 600));
}

#[test]
fn neighbour_never_seen_is_dead() {
    let t = LivenessTracker::new(NEIGHBOUR, &universe5());
    assert_eq!(t.staleness(NEIGHBOUR, 5), None);
    assert!(!neighbour_alive(&t, NEIGHBOUR, 5, 600));
}

#[test]
fn armed_neighbour_timeout_resets_once() {
    let mut w = armed_watchdog(false);
    let u = universe5();
    for &a in &u[..3] {
        w.observe(a, 610);
    }
    assert!(w.is_neighbour_alive(609));
    assert_eq!(w.tick(609), None);
    assert_eq!(w.state(), Armed);
    assert!(!w.is_neighbour_alive(611));
    assert_eq!(w.tick(611), Some(Action::Reset));
    assert_eq!(w.state(), Idle);
    assert_eq!(w.tick(612), None);
    assert_eq!(w.tick(613), None);
    assert_eq!(w.state(), Idle);
}

#[test]
fn dry_run_reports_without_reset() {
    let mut w = armed_watchdog(true);
    let u = universe5();
    for &a in &u[..3] {
        w.observe(a, 610);
    }
    assert_eq!(w.tick(611), Some(Action::ReportOnly));
    assert_eq!(w.state(), Idle);
    assert_eq!(w.tick(612), None);
}

#[test]
fn universe_lost_while_armed_no_reset() {
    let mut w = armed_watchdog(false);
    assert!(!w.is_universe_alive(700));
    assert!(!w.is_neighbour_alive(700));
    assert_eq!(w.tick(700), None);
    assert_eq!(w.state(), LostUniverse);
}

#[test]
fn rearm_needs_neighbour_seen_again() {
    let mut w = armed_watchdog(false);
    let u = universe5();
    for &a in &u[..3] {
        w.observe(a, 700);
    }
    assert_eq!(w.tick(700), Some(Action::Reset));
    assert_eq!(w.tick(701), None);
    assert_eq!(w.state(), Idle);
    w.observe(NEIGHBOUR, 702);
    assert_eq!(w.tick(702), None);
    assert_eq!(w.state(), Armed);
}

#[test]
fn record_keeps_newest() {
    let u = universe5();
    let mut t = LivenessTracker::new(NEIGHBOUR, &u);
    t.record(u[0], 50);
    t.record(u[0], 40);
    assert_eq!(t.staleness(u[0], 60), Some(10));
    t.record(u[0], 50);
    assert_eq!(t.staleness(u[0], 60), Some(10));
    t.record(u[0], 55);
    assert_eq!(t.staleness(u[0], 60), Some(5));
}

#[test]
fn record_ignores_unknown_host() {
    let mut t = LivenessTracker::new(NEIGHBOUR, &universe5());
    t.record(0xffff_c0a8_0001, 50);
    assert_eq!(t.staleness(0xffff_c0a8_0001, 60), None);
    assert_eq!(t.fresh_universe_members(60, 30), 0);
}

#[test]
fn observation_from_the_future_is_fresh() {
    let mut t = LivenessTracker::new(NEIGHBOUR, &universe5());
    t.record(NEIGHBOUR, 80);
    assert_eq!(t.staleness(NEIGHBOUR, 70), Some(0));
}

#[test]
fn watchdog_staleness() {
    let mut w = Watchdog::new(&config(false));
    w.observe(NEIGHBOUR, 3);
    assert_eq!(w.staleness(NEIGHBOUR, 10), Some(7));
    assert_eq!(w.staleness(universe5()[0], 10), None);
}

#[test]
fn ipv4_identity_is_mapped_form() {
    assert_eq!(ipv4_identity([127, 0, 0, 1]), 0xffff_7f00_0001);
    assert_eq!(ipv4_identity([0, 0, 0, 0]), 0xffff_0000_0000);
    assert_eq!(ipv4_identity([255, 255, 255, 255]), 0xffff_ffff_ffff);
    assert!(is_ipv4(0xffff_0a00_0001));
    assert!(!is_ipv4(1));
    assert!(!is_ipv4(0x1_0000_0000_0000));
}

#[test]
fn first_ipv4_skips_ipv6() {
    let v6: u128 = 0x2001_0db8_0000_0000_0000_0000_0000_0001;
    assert_eq!(first_ipv4(&vec![v6, 0xffff_0a00_0002, 0xffff_0a00_0003]), Some(0xffff_0a00_0002));
    assert_eq!(first_ipv4(&vec![v6]), None);
    assert_eq!(first_ipv4(&vec![]), None);
}
