//! Last-seen times of the watched hosts.
use vstd::prelude::*;

verus! {

/// One watched host: its address identity, whether it belongs to the
/// universe, and the time of its last successful observation.
#[derive(Clone, Copy, Debug, PartialEq, Eq, Structural)]
pub struct HostEntry {
    pub addr: u128,
    pub universe: bool,
    pub last_seen: Option<u64>,
}

/// No two entries share an address.
pub open spec fn distinct_addrs(s: Seq<HostEntry>) -> bool {
    forall|i: int, j: int|
        0 <= i < s.len() && 0 <= j < s.len() && i != j ==> s[i].addr != s[j].addr
}

/// The address has an entry.
pub open spec fn watched(s: Seq<HostEntry>, a: u128) -> bool {
    exists|i: int| 0 <= i < s.len() && s[i].addr == a
}

/// The last-seen time of an address; `None` when it was never observed or is
/// not watched at all.
pub open spec fn last_seen_of(s: Seq<HostEntry>, a: u128) -> Option<u64> {
    if watched(s, a) {
        s[choose|i: int| 0 <= i < s.len() && s[i].addr == a].last_seen
    } else {
        None
    }
}

/// An observation at `t` replaces the prior one only when it is strictly newer.
pub open spec fn is_newer(prior: Option<u64>, t: u64) -> bool {
    match prior {
        None => true,
        Some(p) => t > p,
    }
}

/// An entry after an observation at `t`.
pub open spec fn observed(e: HostEntry, t: u64) -> HostEntry {
    if is_newer(e.last_seen, t) {
        HostEntry { last_seen: Some(t), ..e }
    } else {
        e
    }
}

/// Time elapsed since `last` at `now`; `None` stands for infinitely stale.
/// An observation later than `now` counts as just seen.
pub open spec fn staleness_at(last: Option<u64>, now: u64) -> Option<u64> {
    match last {
        None => None,
        Some(t) => Some(if now >= t { (now - t) as u64 } else { 0 }),
    }
}

/// Seen less than `window` units before `now`; never seen is never fresh.
pub open spec fn seen_within(last: Option<u64>, now: u64, window: u64) -> bool {
    match staleness_at(last, now) {
        None => false,
        Some(d) => d < window,
    }
}

/// How many universe entries were seen less than `window` units before `now`.
pub open spec fn fresh_universe_count(s: Seq<HostEntry>, now: u64, window: u64) -> nat
    decreases s.len(),
{
    if s.len() == 0 {
        0
    } else {
        let e = s.last();
        fresh_universe_count(s.drop_last(), now, window) + if e.universe && seen_within(
            e.last_seen,
            now,
            window,
        ) {
            1nat
        } else {
            0nat
        }
    }
}

proof fn lemma_fresh_count_bound(s: Seq<HostEntry>, now: u64, window: u64)
    ensures
        fresh_universe_count(s, now, window) <= s.len(),
    decreases s.len(),
{
    if s.len() > 0 {
        lemma_fresh_count_bound(s.drop_last(), now, window);
    }
}

/// The lookup of an address at the index that holds it.
proof fn lemma_last_seen_at(s: Seq<HostEntry>, i: int)
    requires
        distinct_addrs(s),
        0 <= i < s.len(),
    ensures
        watched(s, s[i].addr),
        last_seen_of(s, s[i].addr) == s[i].last_seen,
{
    let a = s[i].addr;
    assert(watched(s, a));
    let j = choose|j: int| 0 <= j < s.len() && s[j].addr == a;
    assert(j == i);
}

/// The addresses of the universe members seen less than `window` units before `now`.
pub open spec fn fresh_members(s: Seq<HostEntry>, now: u64, window: u64) -> Set<u128> {
    Set::new(
        |a: u128|
            exists|i: int|
                0 <= i < s.len() && s[i].addr == a && s[i].universe && seen_within(
                    s[i].last_seen,
                    now,
                    window,
                ),
    )
}

/// With one entry per address, the count of fresh universe entries is the
/// number of distinct fresh universe members.
pub proof fn lemma_fresh_count_is_members(s: Seq<HostEntry>, now: u64, window: u64)
    requires
        distinct_addrs(s),
    ensures
        fresh_members(s, now, window).finite(),
        fresh_universe_count(s, now, window) == fresh_members(s, now, window).len(),
    decreases s.len(),
{
    if s.len() == 0 {
        assert(fresh_members(s, now, window) =~= Set::empty());
    } else {
        let p = s.drop_last();
        let e = s.last();
        assert(distinct_addrs(p));
        lemma_fresh_count_is_members(p, now, window);
        let fp = fresh_members(p, now, window);
        let fs = fresh_members(s, now, window);
        if e.universe && seen_within(e.last_seen, now, window) {
            assert forall|a: u128| fs.contains(a) <==> fp.insert(e.addr).contains(a) by {
                if fp.contains(a) {
                    let i = choose|i: int|
                        0 <= i < p.len() && p[i].addr == a && p[i].universe && seen_within(
                            p[i].last_seen,
                            now,
                            window,
                        );
                    assert(s[i] == p[i]);
                }
                if a == e.addr {
                    assert(s[s.len() - 1] == e);
                }
                if fs.contains(a) && a != e.addr {
                    let i = choose|i: int|
                        0 <= i < s.len() && s[i].addr == a && s[i].universe && seen_within(
                            s[i].last_seen,
                            now,
                            window,
                        );
                    assert(p[i] == s[i]);
                }
            }
            assert(fs =~= fp.insert(e.addr));
            assert(!fp.contains(e.addr)) by {
                if fp.contains(e.addr) {
                    let i = choose|i: int|
                        0 <= i < p.len() && p[i].addr == e.addr && p[i].universe && seen_within(
                            p[i].last_seen,
                            now,
                            window,
                        );
                    assert(s[i].addr == s[s.len() - 1].addr);
                }
            }
        } else {
            assert forall|a: u128| fs.contains(a) <==> fp.contains(a) by {
                if fp.contains(a) {
                    let i = choose|i: int|
                        0 <= i < p.len() && p[i].addr == a && p[i].universe && seen_within(
                            p[i].last_seen,
                            now,
                            window,
                        );
                    assert(s[i] == p[i]);
                }
                if fs.contains(a) {
                    let i = choose|i: int|
                        0 <= i < s.len() && s[i].addr == a && s[i].universe && seen_within(
                            s[i].last_seen,
                            now,
                            window,
                        );
                    if i == s.len() - 1 {
                        assert(s[i] == e);
                    } else {
                        assert(p[i] == s[i]);
                    }
                }
            }
            assert(fs =~= fp);
        }
    }
}

/// Recording the same observation twice changes nothing more than recording it once.
pub proof fn lemma_observe_idempotent(e: HostEntry, t: u64)
    ensures
        observed(observed(e, t), t) == observed(e, t),
{
}

/// A strictly older observation delivered after a newer one is ignored.
pub proof fn lemma_older_observation_ignored(e: HostEntry, newer: u64, older: u64)
    requires
        older < newer,
    ensures
        observed(observed(e, newer), older) == observed(e, newer),
{
}

/// The order in which two observations arrive does not matter.
pub proof fn lemma_observe_commutes(e: HostEntry, t1: u64, t2: u64)
    ensures
        observed(observed(e, t1), t2) == observed(observed(e, t2), t1),
{
}

/// Records, per watched address, the time of its most recent successful
/// observation.
pub struct LivenessTracker {
    entries: Vec<HostEntry>,
}

impl View for LivenessTracker {
    type V = Seq<HostEntry>;

    closed spec fn view(&self) -> Seq<HostEntry> {
        self.entries@
    }
}

/// The index of `a` in `s`, if any.
fn position(s: &Vec<HostEntry>, a: u128) -> (r: Option<usize>)
    ensures
        match r {
            Some(i) => i < s@.len() && s@[i as int].addr == a,
            None => !watched(s@, a),
        },
{
    let mut i: usize = 0;
    while i < s.len()
        invariant
            i <= s@.len(),
            forall|j: int| 0 <= j < i ==> s@[j].addr != a,
        decreases s@.len() - i,
    {
        if s[i].addr == a {
            return Some(i);
        }
        i += 1;
    }
    None
}

/// `a` occurs in `s`.
fn contains_addr(s: &Vec<u128>, a: u128) -> (r: bool)
    ensures
        r == s@.contains(a),
{
    let mut i: usize = 0;
    while i < s.len()
        invariant
            i <= s@.len(),
            forall|j: int| 0 <= j < i ==> s@[j] != a,
        decreases s@.len() - i,
    {
        if s[i] == a {
            assert(s@[i as int] == a);
            return true;
        }
        i += 1;
    }
    false
}

impl LivenessTracker {
    /// Well-formed: one entry per address.
    pub open spec fn wf(&self) -> bool {
        distinct_addrs(self@)
    }

    /// A tracker for the neighbour and the universe members, none of them seen
    /// yet. An address listed more than once is watched once.
    pub fn new(neighbour: u128, universe: &Vec<u128>) -> (r: Self)
        ensures
            r.wf(),
            forall|a: u128| #[trigger] watched(r@, a) <==> (a == neighbour || universe@.contains(a)),
            forall|i: int|
                0 <= i < r@.len() ==> (#[trigger] r@[i]).universe == universe@.contains(r@[i].addr)
                    && r@[i].last_seen is None,
    {
        let mut entries: Vec<HostEntry> = Vec::new();
        entries.push(
            HostEntry { addr: neighbour, universe: contains_addr(universe, neighbour), last_seen: None },
        );
        assert(entries@[0].addr == neighbour);
        let mut k: usize = 0;
        while k < universe.len()
            invariant
                k <= universe@.len(),
                distinct_addrs(entries@),
                watched(entries@, neighbour),
                forall|j: int| 0 <= j < k ==> watched(entries@, #[trigger] universe@[j]),
                forall|i: int|
                    0 <= i < entries@.len() ==> (#[trigger] entries@[i]).universe
                        == universe@.contains(entries@[i].addr) && entries@[i].last_seen is None
                        && (entries@[i].addr == neighbour || universe@.contains(entries@[i].addr)),
            decreases universe@.len() - k,
        {
            let a = universe[k];
            assert(universe@.contains(a));
            match position(&entries, a) {
                Some(_) => {},
                None => {
                    let ghost prev = entries@;
                    entries.push(HostEntry { addr: a, universe: true, last_seen: None });
                    assert(entries@[prev.len() as int].addr == a);
                    assert forall|b: u128| watched(prev, b) implies watched(entries@, b) by {
                        let j = choose|j: int| 0 <= j < prev.len() && prev[j].addr == b;
                        assert(entries@[j].addr == b);
                    }
                },
            }
            k += 1;
        }
        assert forall|b: u128| #[trigger]
            watched(entries@, b) <==> (b == neighbour || universe@.contains(b)) by {
            if watched(entries@, b) {
                let i = choose|i: int| 0 <= i < entries@.len() && entries@[i].addr == b;
                assert(entries@[i].addr == neighbour || universe@.contains(entries@[i].addr));
            }
            if universe@.contains(b) {
                let j = choose|j: int| 0 <= j < universe@.len() && universe@[j] == b;
                assert(watched(entries@, universe@[j]));
            }
        }
        LivenessTracker { entries }
    }

    /// Notes a successful observation of `addr` at time `t`. Only a strictly
    /// newer time replaces the stored one, so duplicate and out-of-order
    /// deliveries are harmless; an address that is not watched is ignored.
    pub fn record(&mut self, addr: u128, t: u64)
        requires
            old(self).wf(),
        ensures
            final(self).wf(),
            final(self)@.len() == old(self)@.len(),
            forall|i: int|
                0 <= i < old(self)@.len() ==> #[trigger] final(self)@[i] == if old(self)@[i].addr
                    == addr {
                    observed(old(self)@[i], t)
                } else {
                    old(self)@[i]
                },
    {
        match position(&self.entries, addr) {
            Some(i) => {
                let e = self.entries[i];
                let newer = match e.last_seen {
                    None => true,
                    Some(p) => t > p,
                };
                if newer {
                    self.entries.set(i, HostEntry { last_seen: Some(t), ..e });
                }
            },
            None => {},
        }
    }

    /// Time since `addr` was last observed, `None` (infinitely stale) when it
    /// never was or is not watched.
    pub fn staleness(&self, addr: u128, now: u64) -> (r: Option<u64>)
        requires
            self.wf(),
        ensures
            r == staleness_at(last_seen_of(self@, addr), now),
    {
        match position(&self.entries, addr) {
            Some(i) => {
                proof {
                    lemma_last_seen_at(self@, i as int);
                }
                match self.entries[i].last_seen {
                    None => None,
                    Some(t) => Some(
                        if now >= t {
                            now - t
                        } else {
                            0
                        },
                    ),
                }
            },
            None => None,
        }
    }

    /// How many universe members were seen less than `window` units before `now`.
    pub fn fresh_universe_members(&self, now: u64, window: u64) -> (r: usize)
        ensures
            r == fresh_universe_count(self@, now, window),
    {
        let mut count: usize = 0;
        let mut i: usize = 0;
        while i < self.entries.len()
            invariant
                i <= self@.len(),
                self@ == self.entries@,
                count == fresh_universe_count(self@.take(i as int), now, window),
            decreases self@.len() - i,
        {
            let e = self.entries[i];
            assert(self@.take(i + 1).drop_last() == self@.take(i as int));
            proof {
                lemma_fresh_count_bound(self@.take(i as int), now, window);
            }
            let fresh = match e.last_seen {
                None => false,
                Some(t) => (if now >= t {
                    now - t
                } else {
                    0
                }) < window,
            };
            if e.universe && fresh {
                count += 1;
            }
            i += 1;
        }
        assert(self@.take(self@.len() as int) == self@);
        count
    }
}

} // verus!
