//! Path probing: periodically probes the paths of the contacts that were not seen for a
//! while, invalidates those whose probes fail, answers the probes of others, and validates
//! proposed paths with single probes.
//!
//! The routing table is handed in as its buckets of contacts, each with the time it was
//! last seen.

use std::collections::HashMap;

use vstd::prelude::*;
use vstd::std_specs::iter::IteratorSpec;

use crate::domain::{copy_path, Contact, ContactState, Micros, NodeId, Nonce, SourceRoute, TimerId};
use crate::utils::nonce::distinct_nonce;

verus! {

broadcast use {vstd::std_specs::hash::group_hash_axioms, vstd::seq_lib::group_seq_properties};

/// Configuration of [PathProbing]; durations in microseconds.
#[derive(Debug, Clone, Copy, PartialEq, Eq, Structural)]
pub struct PathProbingConfig {
    /// Interval of the periodic check for contacts to probe.
    pub check_interval: Micros,
    /// Contacts not seen for this long are probed (40 s: the underlay advertises about
    /// every 30 s).
    pub probe_age: Micros,
    /// Time a probe may take.
    pub request_timeout: Micros,
    /// Delay of the scheduled probes of proposed paths.
    pub scheduled_probe_delay: Micros,
}

impl Default for PathProbingConfig {
    /// Checks every second, probes after 40 s, waits 10 s for a probe, and delays scheduled
    /// probes by 250 ms.
    fn default() -> (c: Self)
        ensures
            c == (PathProbingConfig {
                check_interval: 1_000_000,
                probe_age: 40_000_000,
                request_timeout: 10_000_000,
                scheduled_probe_delay: 250_000,
            }),
    {
        PathProbingConfig {
            check_interval: 1_000_000,
            probe_age: 40_000_000,
            request_timeout: 10_000_000,
            scheduled_probe_delay: 250_000,
        }
    }
}

/// State of the path probing; times in microseconds.
#[derive(Debug)]
pub enum PathProbingState {
    Initialized,
    Running {
        /// Timer of the periodic check for contacts to probe.
        probe_timer_id: TimerId,
        /// The timeout timer of each probe, by timer.
        probe_timers: HashMap<TimerId, Nonce>,
        /// The contact and the sending time of each probe in flight, by nonce.
        requests_in_flight: HashMap<Nonce, (NodeId, Micros)>,
        /// Probes scheduled for later (mainly to validate proposed paths), with their time.
        scheduled_probe_requests: HashMap<NodeId, Micros>,
        /// Timer of the sending of the scheduled probes.
        scheduled_sending_timer: Option<TimerId>,
    },
    Error,
}

impl PathProbingState {
    /// Whether the path probing failed.
    pub fn is_error(&self) -> (b: bool)
        ensures
            b == (*self is Error),
    {
        match self {
            PathProbingState::Error => true,
            _ => false,
        }
    }
}

/// What the runtime is asked to do.
#[derive(Debug)]
pub enum PPAction {
    /// Send a ProbeReq with the nonce along the route (this node first). A probe with a
    /// timeout needs a timer of the request timeout, whose id goes with the nonce to
    /// [PathProbing::hook_probe_timer].
    SendProbeReq { nonce: Nonce, route: Vec<NodeId>, with_timeout: bool },
    /// Register the (randomized) timer of the scheduled probes with the delay and pass its
    /// id to [PathProbing::set_scheduled_timer].
    RegisterScheduledTimer(Micros),
}

/// The contact of a bucket entry (with the time it was last seen) is due for a probe at
/// `now`: valid, not an underlay neighbor, and not seen for at least the probe age.
pub open spec fn due(e: (Contact, Micros), now: Micros, probe_age: Micros) -> bool {
    &&& e.0.state == ContactState::Valid
    &&& !e.0.spec_is_uln()
    &&& since(now, e.1) >= probe_age
}

/// The number of entries of the bucket that are due.
pub open spec fn due_count(b: Seq<(Contact, Micros)>, now: Micros, probe_age: Micros) -> nat
    decreases b.len(),
{
    if b.len() == 0 {
        0
    } else {
        due_count(b.drop_last(), now, probe_age) + if due(b.last(), now, probe_age) {
            1nat
        } else {
            0nat
        }
    }
}

/// The indices are those of the (at most) two due entries of the bucket seen longest ago.
pub open spec fn oldest_two(b: Seq<(Contact, Micros)>, now: Micros, probe_age: Micros, sel: Seq<int>) -> bool {
    &&& sel.len() == if due_count(b, now, probe_age) < 2 {
        due_count(b, now, probe_age)
    } else {
        2
    }
    &&& sel.no_duplicates()
    &&& forall|k: int| 0 <= k < sel.len() ==> 0 <= #[trigger] sel[k] < b.len() && due(b[sel[k]], now, probe_age)
    &&& forall|k: int, j: int|
        #![trigger sel[k], b[j]]
        0 <= k < sel.len() && 0 <= j < b.len() && due(b[j], now, probe_age) && !sel.contains(j) ==> b[j].1 >= b[sel[k]].1
}

/// Valid contacts have a path.
pub open spec fn valid_have_paths(b: Seq<(Contact, Micros)>) -> bool {
    forall|i: int| 0 <= i < b.len() && (#[trigger] b[i]).0.state == ContactState::Valid ==> b[i].0.path is Some
}

/// Whether the entry is due.
fn is_due(e: &(Contact, Micros), now: Micros, probe_age: Micros) -> (b: bool)
    ensures
        b == due(*e, now, probe_age),
{
    e.0.state == ContactState::Valid && !e.0.is_uln() && now.saturating_sub(e.1) >= probe_age
}

/// The index is the one to skip.
pub open spec fn skipped(skip: Option<usize>, j: int) -> bool {
    match skip {
        Some(s) => s == j,
        None => false,
    }
}

/// The due entry seen longest ago (the first such), other than `skip`.
fn oldest_due(b: &Vec<(Contact, Micros)>, now: Micros, probe_age: Micros, skip: Option<usize>) -> (r: Option<usize>)
    ensures
        r is None ==> forall|j: int| 0 <= j < b@.len() && !skipped(skip, j) ==> !due(#[trigger] b@[j], now, probe_age),
        r matches Some(i) ==> i < b@.len() && !skipped(skip, i as int) && due(b@[i as int], now, probe_age) && forall|j: int|
            0 <= j < b@.len() && !skipped(skip, j) && due(#[trigger] b@[j], now, probe_age) ==> b@[j].1 >= b@[i as int].1,
{
    let mut best: Option<usize> = None;
    let mut j: usize = 0;
    while j < b.len()
        invariant
            j <= b@.len(),
            best is None ==> forall|k: int| 0 <= k < j && !skipped(skip, k) ==> !due(#[trigger] b@[k], now, probe_age),
            best matches Some(i) ==> i < j && !skipped(skip, i as int) && due(b@[i as int], now, probe_age) && forall|k: int|
                0 <= k < j && !skipped(skip, k) && due(#[trigger] b@[k], now, probe_age) ==> b@[k].1 >= b@[i as int].1,
        decreases b@.len() - j,
    {
        let skip_here = match skip {
            Some(s) => s == j,
            None => false,
        };
        if !skip_here && is_due(&b[j], now, probe_age) {
            let better = match best {
                Some(i) => b[j].1 < b[i].1,
                None => true,
            };
            if better {
                best = Some(j);
            }
        }
        j = j + 1;
    }
    best
}

/// A bucket without due entries has none to count.
proof fn lemma_none_due(b: Seq<(Contact, Micros)>, now: Micros, probe_age: Micros)
    requires
        forall|j: int| 0 <= j < b.len() ==> !due(#[trigger] b[j], now, probe_age),
    ensures
        due_count(b, now, probe_age) == 0,
    decreases b.len(),
{
    if b.len() > 0 {
        let r = b.drop_last();
        assert forall|j: int| 0 <= j < r.len() implies !due(#[trigger] r[j], now, probe_age) by {
            assert(r[j] == b[j]);
        }
        lemma_none_due(r, now, probe_age);
        assert(!due(b[b.len() - 1], now, probe_age));
    }
}

/// A bucket with one due entry counts one.
proof fn lemma_one_due(b: Seq<(Contact, Micros)>, now: Micros, probe_age: Micros, i: int)
    requires
        0 <= i < b.len(),
        due(b[i], now, probe_age),
        forall|j: int| 0 <= j < b.len() && j != i ==> !due(#[trigger] b[j], now, probe_age),
    ensures
        due_count(b, now, probe_age) == 1,
    decreases b.len(),
{
    let r = b.drop_last();
    if i == b.len() - 1 {
        assert forall|j: int| 0 <= j < r.len() implies !due(#[trigger] r[j], now, probe_age) by {
            assert(r[j] == b[j]);
        }
        lemma_none_due(r, now, probe_age);
    } else {
        assert forall|j: int| 0 <= j < r.len() && j != i implies !due(#[trigger] r[j], now, probe_age) by {
            assert(r[j] == b[j]);
        }
        assert(r[i] == b[i]);
        lemma_one_due(r, now, probe_age, i);
        assert(!due(b[b.len() - 1], now, probe_age));
    }
}

/// A bucket with a due entry counts at least one; with two, at least two.
proof fn lemma_some_due(b: Seq<(Contact, Micros)>, now: Micros, probe_age: Micros, i: int, k: int)
    requires
        0 <= i < b.len(),
        0 <= k < b.len(),
        due(b[i], now, probe_age),
        due(b[k], now, probe_age),
    ensures
        due_count(b, now, probe_age) >= 1,
        i != k ==> due_count(b, now, probe_age) >= 2,
    decreases b.len(),
{
    let r = b.drop_last();
    let last = b.len() - 1;
    if i < last && k < last {
        assert(r[i] == b[i] && r[k] == b[k]);
        lemma_some_due(r, now, probe_age, i, k);
    } else if i < last {
        assert(r[i] == b[i]);
        lemma_some_due(r, now, probe_age, i, i);
    } else if k < last {
        assert(r[k] == b[k]);
        lemma_some_due(r, now, probe_age, k, k);
    }
}

/// The (at most) two due entries of the bucket seen longest ago, oldest first.
pub fn select_probe_targets(b: &Vec<(Contact, Micros)>, now: Micros, probe_age: Micros) -> (sel: Vec<usize>)
    ensures
        oldest_two(b@, now, probe_age, sel@.map_values(|i: usize| i as int)),
{
    let mut sel: Vec<usize> = Vec::new();
    let first = match oldest_due(b, now, probe_age, None) {
        Some(i) => i,
        None => {
            proof {
                lemma_none_due(b@, now, probe_age);
            }
            assert(sel@.map_values(|i: usize| i as int) =~= seq![]);
            return sel;
        },
    };
    sel.push(first);
    match oldest_due(b, now, probe_age, Some(first)) {
        Some(second) => {
            sel.push(second);
            proof {
                let s = sel@.map_values(|i: usize| i as int);
                assert(s =~= seq![first as int, second as int]);
                lemma_some_due(b@, now, probe_age, first as int, second as int);
                assert forall|k: int, j: int|
                    #![trigger s[k], b@[j]]
                    0 <= k < s.len() && 0 <= j < b@.len() && due(b@[j], now, probe_age) && !s.contains(j) implies b@[j].1
                        >= b@[s[k]].1 by {
                    assert(s.contains(first as int) && s.contains(second as int)) by {
                        assert(s[0] == first as int && s[1] == second as int);
                    }
                    assert(j != first as int && j != second as int);
                    assert(!skipped(Some(first), j));
                    assert(due(#[trigger] b@[j], now, probe_age));
                    if k == 0 {
                        assert(s[k] == first as int);
                    } else {
                        assert(s[k] == second as int);
                    }
                }
            }
        },
        None => {
            proof {
                let s = sel@.map_values(|i: usize| i as int);
                assert(s =~= seq![first as int]);
                assert forall|j: int| 0 <= j < b@.len() && j != first implies !due(#[trigger] b@[j], now, probe_age) by {
                    assert(!skipped(Some(first), j));
                }
                lemma_one_due(b@, now, probe_age, first as int);
                assert forall|k: int, j: int|
                    #![trigger s[k], b@[j]]
                    0 <= k < s.len() && 0 <= j < b@.len() && due(b@[j], now, probe_age) && !s.contains(j) implies b@[j].1
                        >= b@[s[k]].1 by {
                    assert(j == first);
                }
            }
        },
    }
    sel
}

/// The timers of the probes in flight (empty unless running).
pub open spec fn probe_timers_of(s: PathProbingState) -> Map<TimerId, Nonce> {
    match s {
        PathProbingState::Running { probe_timers, .. } => probe_timers@,
        _ => Map::empty(),
    }
}

/// The probes in flight: contact and sending time, by nonce (empty unless running).
pub open spec fn requests_of(s: PathProbingState) -> Map<Nonce, (NodeId, Micros)> {
    match s {
        PathProbingState::Running { requests_in_flight, .. } => requests_in_flight@,
        _ => Map::empty(),
    }
}

/// The scheduled probes with their time (empty unless running).
pub open spec fn scheduled_of(s: PathProbingState) -> Map<NodeId, Micros> {
    match s {
        PathProbingState::Running { scheduled_probe_requests, .. } => scheduled_probe_requests@,
        _ => Map::empty(),
    }
}

/// The timer of the scheduled probes (none unless running).
pub open spec fn scheduled_timer_of(s: PathProbingState) -> Option<TimerId> {
    match s {
        PathProbingState::Running { scheduled_sending_timer, .. } => scheduled_sending_timer,
        _ => None,
    }
}

/// The timer of the periodic check (none unless running).
pub open spec fn periodic_timer_of(s: PathProbingState) -> Option<TimerId> {
    match s {
        PathProbingState::Running { probe_timer_id, .. } => Some(probe_timer_id),
        _ => None,
    }
}

/// How long ago `then` was, at `now` (zero for a time in the future).
pub open spec fn since(now: Micros, then: Micros) -> int {
    if now >= then {
        now - then
    } else {
        0
    }
}

/// Running with the parts of `s` but for the probes in flight and their timers.
pub open spec fn same_schedule(s: PathProbingState, f: PathProbingState) -> bool {
    &&& f is Running
    &&& periodic_timer_of(f) == periodic_timer_of(s)
    &&& scheduled_of(f) == scheduled_of(s)
    &&& scheduled_timer_of(f) == scheduled_timer_of(s)
}

/// The number of probes that the buckets call for: two per bucket, or as many as are due.
pub open spec fn probes_called_for(bs: Seq<Vec<(Contact, Micros)>>, now: Micros, probe_age: Micros) -> nat
    decreases bs.len(),
{
    if bs.len() == 0 {
        0
    } else {
        let c = due_count(bs.last()@, now, probe_age);
        probes_called_for(bs.drop_last(), now, probe_age) + if c < 2 {
            c
        } else {
            2
        }
    }
}

/// The action probes the due contact of a bucket along its path, under a nonce tracked for
/// it at `now`.
pub open spec fn probes_due_contact(
    a: PPAction,
    bs: Seq<Vec<(Contact, Micros)>>,
    root: NodeId,
    now: Micros,
    probe_age: Micros,
    requests: Map<Nonce, (NodeId, Micros)>,
) -> bool {
    a matches PPAction::SendProbeReq { nonce, route, with_timeout } && with_timeout && exists|b: int, i: int|
        0 <= b < bs.len() && 0 <= i < bs[b]@.len() && #[trigger] due(bs[b]@[i], now, probe_age) && route@ == seq![root]
            + bs[b]@[i].0.path->0@ && requests.contains_key(nonce) && requests[nonce] == (bs[b]@[i].0.id, now)
}

/// The nonce of a probe (0 for other actions).
pub open spec fn probe_nonce(a: PPAction) -> Nonce {
    match a {
        PPAction::SendProbeReq { nonce, .. } => nonce,
        _ => 0,
    }
}

/// The route from `root` along the path.
fn route_along(root: NodeId, path: &Vec<NodeId>) -> (route: Vec<NodeId>)
    ensures
        route@ == seq![root] + path@,
{
    let mut route: Vec<NodeId> = Vec::new();
    route.push(root);
    let mut rest = copy_path(path);
    route.append(&mut rest);
    route
}

/// The path probing use case.
#[derive(Debug)]
pub struct PathProbing {
    state: PathProbingState,
    config: PathProbingConfig,
}

impl PathProbing {
    /// The state.
    pub closed spec fn state_view(&self) -> PathProbingState {
        self.state
    }

    /// The configuration.
    pub closed spec fn config_view(&self) -> PathProbingConfig {
        self.config
    }

    /// Creates the use case, not yet running.
    pub fn new(config: PathProbingConfig) -> (pp: Self)
        ensures
            pp.state_view() is Initialized,
            pp.config_view() == config,
    {
        PathProbing { state: PathProbingState::Initialized, config }
    }

    /// The current state.
    pub fn state(&self) -> (s: &PathProbingState)
        ensures
            *s == self.state_view(),
    {
        &self.state
    }

    /// Starts the use case with the periodic timer of the check interval that the runtime
    /// registered.
    pub fn start(&mut self, timer_id: TimerId)
        ensures
            final(self).config_view() == old(self).config_view(),
            final(self).state_view() is Running,
            periodic_timer_of(final(self).state_view()) == Some(timer_id),
            probe_timers_of(final(self).state_view()) == Map::<TimerId, Nonce>::empty(),
            requests_of(final(self).state_view()) == Map::<Nonce, (NodeId, Micros)>::empty(),
            scheduled_of(final(self).state_view()) == Map::<NodeId, Micros>::empty(),
            scheduled_timer_of(final(self).state_view()) is None,
    {
        self.state = PathProbingState::Running {
            probe_timer_id: timer_id,
            probe_timers: HashMap::new(),
            requests_in_flight: HashMap::new(),
            scheduled_probe_requests: HashMap::new(),
            scheduled_sending_timer: None,
        };
    }

    /// Whether the timer is the periodic check.
    pub fn is_periodic_timer(&self, timer_id: TimerId) -> (b: bool)
        ensures
            b == (periodic_timer_of(self.state_view()) == Some(timer_id)),
    {
        match &self.state {
            PathProbingState::Running { probe_timer_id, .. } => *probe_timer_id == timer_id,
            _ => false,
        }
    }

    /// Whether the timer guards a probe in flight.
    pub fn is_tracked_timer(&self, timer_id: TimerId) -> (b: bool)
        ensures
            b == probe_timers_of(self.state_view()).contains_key(timer_id),
    {
        match &self.state {
            PathProbingState::Running { probe_timers, .. } => probe_timers.contains_key(&timer_id),
            _ => false,
        }
    }

    /// Whether the timer is the one of the scheduled probes.
    pub fn is_scheduled_probe_timer(&self, timer_id: TimerId) -> (b: bool)
        ensures
            b == (scheduled_timer_of(self.state_view()) == Some(timer_id)),
    {
        match &self.state {
            PathProbingState::Running { scheduled_sending_timer, .. } => match scheduled_sending_timer {
                Some(t) => *t == timer_id,
                None => false,
            },
            _ => false,
        }
    }

    /// Whether a probe with the nonce is in flight.
    pub fn is_tracked_message(&self, nonce: Nonce) -> (b: bool)
        ensures
            b == requests_of(self.state_view()).contains_key(nonce),
    {
        match &self.state {
            PathProbingState::Running { requests_in_flight, .. } => requests_in_flight.contains_key(&nonce),
            _ => false,
        }
    }

    /// Probes the contact along the path (this node first) under a fresh nonce, tracked
    /// with the contact and `now`.
    fn probe(&mut self, root: NodeId, id: NodeId, path: &Vec<NodeId>, now: Micros, with_timeout: bool) -> (a: PPAction)
        requires
            old(self).state_view() is Running,
        ensures
            final(self).config_view() == old(self).config_view(),
            same_schedule(old(self).state_view(), final(self).state_view()),
            probe_timers_of(final(self).state_view()) == probe_timers_of(old(self).state_view()),
            a matches PPAction::SendProbeReq { nonce, route, with_timeout: w } && w == with_timeout && route@ == seq![root] + path@
                && !requests_of(old(self).state_view()).contains_key(nonce) && requests_of(final(self).state_view())
                == requests_of(old(self).state_view()).insert(nonce, (id, now)),
    {
        let route = route_along(root, path);
        match &mut self.state {
            PathProbingState::Running { requests_in_flight, .. } => {
                let nonce = distinct_nonce(requests_in_flight);
                requests_in_flight.insert(nonce, (id, now));
                PPAction::SendProbeReq { nonce, route, with_timeout }
            },
            _ => PPAction::SendProbeReq { nonce: 0, route, with_timeout },
        }
    }

    /// The periodic check: in every bucket, the (at most) two due contacts seen longest ago
    /// (see [oldest_two]) are probed at `now`, each under a fresh nonce with a timeout.
    pub fn send_probe_reqs(&mut self, root: NodeId, buckets: &Vec<Vec<(Contact, Micros)>>, now: Micros) -> (actions: Vec<PPAction>)
        requires
            old(self).state_view() is Running,
            forall|b: int| 0 <= b < buckets@.len() ==> valid_have_paths(#[trigger] buckets@[b]@),
        ensures
            final(self).config_view() == old(self).config_view(),
            same_schedule(old(self).state_view(), final(self).state_view()),
            probe_timers_of(final(self).state_view()) == probe_timers_of(old(self).state_view()),
            actions@.len() == probes_called_for(buckets@, now, old(self).config_view().probe_age),
            forall|k: int| 0 <= k < actions@.len() ==> probes_due_contact(
                #[trigger] actions@[k],
                buckets@,
                root,
                now,
                old(self).config_view().probe_age,
                requests_of(final(self).state_view()),
            ),
            forall|k: int, j: int| 0 <= k < j < actions@.len() ==> probe_nonce(#[trigger] actions@[k]) != probe_nonce(
                #[trigger] actions@[j],
            ),
            forall|n: Nonce| #[trigger] requests_of(final(self).state_view()).contains_key(n) <==> requests_of(old(self).state_view()).contains_key(n)
                || exists|k: int| 0 <= k < actions@.len() && probe_nonce(#[trigger] actions@[k]) == n,
            forall|n: Nonce| #[trigger] requests_of(old(self).state_view()).contains_key(n) ==> requests_of(final(self).state_view())[n]
                == requests_of(old(self).state_view())[n],
            forall|k: int| 0 <= k < actions@.len() ==> !requests_of(old(self).state_view()).contains_key(probe_nonce(#[trigger] actions@[k])),
    {
        let age = self.config.probe_age;
        let ghost s0 = self.state_view();
        let mut actions: Vec<PPAction> = Vec::new();
        let mut b: usize = 0;
        while b < buckets.len()
            invariant
                b <= buckets@.len(),
                self.config_view() == old(self).config_view(),
                age == self.config_view().probe_age,
                self.state_view() is Running,
                same_schedule(s0, self.state_view()),
                probe_timers_of(self.state_view()) == probe_timers_of(s0),
                forall|c: int| 0 <= c < buckets@.len() ==> valid_have_paths(#[trigger] buckets@[c]@),
                actions@.len() == probes_called_for(buckets@.take(b as int), now, age),
                forall|k: int| 0 <= k < actions@.len() ==> probes_due_contact(#[trigger] actions@[k], buckets@, root, now, age, requests_of(self.state_view())),
                forall|k: int, j: int| 0 <= k < j < actions@.len() ==> probe_nonce(#[trigger] actions@[k]) != probe_nonce(#[trigger] actions@[j]),
                forall|n: Nonce| #[trigger] requests_of(self.state_view()).contains_key(n) <==> requests_of(s0).contains_key(n)
                    || exists|k: int| 0 <= k < actions@.len() && probe_nonce(#[trigger] actions@[k]) == n,
                forall|n: Nonce| #[trigger] requests_of(s0).contains_key(n) ==> requests_of(self.state_view())[n] == requests_of(s0)[n],
                forall|k: int| 0 <= k < actions@.len() ==> !requests_of(s0).contains_key(probe_nonce(#[trigger] actions@[k])),
                forall|k: int| 0 <= k < actions@.len() ==> (#[trigger] actions@[k]) is SendProbeReq,
            decreases buckets@.len() - b,
        {
            let bucket = &buckets[b];
            let sel = select_probe_targets(bucket, now, age);
            let ghost before = actions@.len();
            let mut t: usize = 0;
            while t < sel.len()
                invariant
                    t <= sel@.len(),
                    b < buckets@.len(),
                    bucket == &buckets@[b as int],
                    oldest_two(bucket@, now, age, sel@.map_values(|i: usize| i as int)),
                    valid_have_paths(bucket@),
                    self.config_view() == old(self).config_view(),
                    age == self.config_view().probe_age,
                    self.state_view() is Running,
                    same_schedule(s0, self.state_view()),
                    probe_timers_of(self.state_view()) == probe_timers_of(s0),
                    actions@.len() == before + t,
                    forall|k: int| 0 <= k < actions@.len() ==> probes_due_contact(#[trigger] actions@[k], buckets@, root, now, age, requests_of(self.state_view())),
                    forall|k: int, j: int| 0 <= k < j < actions@.len() ==> probe_nonce(#[trigger] actions@[k]) != probe_nonce(#[trigger] actions@[j]),
                    forall|n: Nonce| #[trigger] requests_of(self.state_view()).contains_key(n) <==> requests_of(s0).contains_key(n)
                        || exists|k: int| 0 <= k < actions@.len() && probe_nonce(#[trigger] actions@[k]) == n,
                    forall|n: Nonce| #[trigger] requests_of(s0).contains_key(n) ==> requests_of(self.state_view())[n] == requests_of(s0)[n],
                    forall|k: int| 0 <= k < actions@.len() ==> !requests_of(s0).contains_key(probe_nonce(#[trigger] actions@[k])),
                    forall|k: int| 0 <= k < actions@.len() ==> (#[trigger] actions@[k]) is SendProbeReq,
                decreases sel@.len() - t,
            {
                let i = sel[t];
                proof {
                    let si = sel@.map_values(|i: usize| i as int);
                    assert(si[t as int] == i as int);
                    assert(0 <= si[t as int] < bucket@.len());
                }
                let c = &bucket[i].0;
                let ghost r0 = requests_of(self.state_view());
                let ghost a0 = actions@;
                let path = match &c.path {
                    Some(p) => p,
                    None => {
                        proof {
                            assert(due(bucket@[i as int], now, age));
                            assert(false);
                        }
                        return actions;
                    },
                };
                let a = self.probe(root, c.id, path, now, true);
                actions.push(a);
                proof {
                    let r1 = requests_of(self.state_view());
                    let n = probe_nonce(a);
                    assert(!r0.contains_key(n));
                    assert(due(bucket@[i as int], now, age));
                    assert forall|k: int| 0 <= k < actions@.len() implies probes_due_contact(#[trigger] actions@[k], buckets@, root, now, age, r1) by {
                        if k < a0.len() {
                            assert(actions@[k] == a0[k]);
                            assert(probes_due_contact(a0[k], buckets@, root, now, age, r0));
                            let nk = probe_nonce(a0[k]);
                            assert(r0.contains_key(nk));
                            assert(nk != n);
                            assert(r1[nk] == r0[nk]);
                        } else {
                            assert(due(buckets@[b as int]@[i as int], now, age));
                        }
                    }
                    assert forall|k: int, j: int| 0 <= k < j < actions@.len() implies probe_nonce(#[trigger] actions@[k]) != probe_nonce(#[trigger] actions@[j]) by {
                        if j == actions@.len() - 1 {
                            assert(actions@[k] == a0[k]);
                            assert(r0.contains_key(probe_nonce(a0[k]))) by {
                                assert(probes_due_contact(a0[k], buckets@, root, now, age, r0));
                            }
                        } else {
                            assert(actions@[k] == a0[k] && actions@[j] == a0[j]);
                        }
                    }
                    assert forall|m: Nonce| #[trigger] r1.contains_key(m) <==> requests_of(s0).contains_key(m)
                        || exists|k: int| 0 <= k < actions@.len() && probe_nonce(#[trigger] actions@[k]) == m by {
                        if r0.contains_key(m) && !requests_of(s0).contains_key(m) {
                            let k = choose|k: int| 0 <= k < a0.len() && probe_nonce(#[trigger] a0[k]) == m;
                            assert(actions@[k] == a0[k]);
                        }
                        if m == n {
                            assert(probe_nonce(actions@[actions@.len() - 1]) == m);
                        }
                        if exists|k: int| 0 <= k < actions@.len() && probe_nonce(#[trigger] actions@[k]) == m {
                            let k = choose|k: int| 0 <= k < actions@.len() && probe_nonce(#[trigger] actions@[k]) == m;
                            if k < a0.len() {
                                assert(actions@[k] == a0[k]);
                            }
                        }
                    }
                    assert forall|m: Nonce| #[trigger] requests_of(s0).contains_key(m) implies r1[m] == requests_of(s0)[m] by {
                        assert(r0.contains_key(m));
                        assert(m != n);
                    }
                    assert forall|k: int| 0 <= k < actions@.len() implies !requests_of(s0).contains_key(probe_nonce(#[trigger] actions@[k])) by {
                        if k < a0.len() {
                            assert(actions@[k] == a0[k]);
                        } else {
                            if requests_of(s0).contains_key(n) {
                                assert(r0.contains_key(n));
                            }
                        }
                    }
                }
                t = t + 1;
            }
            proof {
                assert(sel@.map_values(|i: usize| i as int).len() == sel@.len());
                assert(buckets@.take(b + 1).drop_last() == buckets@.take(b as int));
                assert(buckets@.take(b + 1).last() == buckets@[b as int]);
            }
            b = b + 1;
        }
        assert(buckets@.take(buckets@.len() as int) == buckets@);
        actions
    }

    /// Records the timeout timer that the runtime registered for the probe with the nonce
    /// (while running).
    pub fn hook_probe_timer(&mut self, timer_id: TimerId, nonce: Nonce)
        ensures
            final(self).config_view() == old(self).config_view(),
            !(old(self).state_view() is Running) ==> final(self).state_view() == old(self).state_view(),
            old(self).state_view() is Running ==> same_schedule(old(self).state_view(), final(self).state_view())
                && requests_of(final(self).state_view()) == requests_of(old(self).state_view()) && probe_timers_of(
                final(self).state_view(),
            ) == probe_timers_of(old(self).state_view()).insert(timer_id, nonce),
    {
        if let PathProbingState::Running { probe_timers, .. } = &mut self.state {
            probe_timers.insert(timer_id, nonce);
        }
    }

    /// Forgets the probes in flight (single probes among them, which have no timer) sent
    /// longer than the request timeout before `now`.
    pub fn garbage_collect_requests(&mut self, now: Micros)
        ensures
            final(self).config_view() == old(self).config_view(),
            !(old(self).state_view() is Running) ==> final(self).state_view() == old(self).state_view(),
            old(self).state_view() is Running ==> ({
                let r = requests_of(old(self).state_view());
                &&& same_schedule(old(self).state_view(), final(self).state_view())
                &&& probe_timers_of(final(self).state_view()) == probe_timers_of(old(self).state_view())
                &&& requests_of(final(self).state_view()) == r.restrict(
                    r.dom().filter(|n: Nonce| since(now, r[n].1) <= old(self).config_view().request_timeout),
                )
            }),
    {
        let timeout = self.config.request_timeout;
        if let PathProbingState::Running { requests_in_flight, .. } = &mut self.state {
            let ghost r = requests_in_flight@;
            let old_ones = stale_requests(requests_in_flight, now, timeout);
            let mut i: usize = 0;
            while i < old_ones.len()
                invariant
                    i <= old_ones@.len(),
                    forall|n: Nonce| old_ones@.contains(n) <==> r.contains_key(n) && since(now, r[n].1) > timeout,
                    requests_in_flight@ == r.remove_keys(old_ones@.take(i as int).to_set()),
                decreases old_ones@.len() - i,
            {
                requests_in_flight.remove(&old_ones[i]);
                assert(old_ones@.take(i + 1).to_set() =~= old_ones@.take(i as int).to_set().insert(old_ones@[i as int]));
                assert(requests_in_flight@ =~= r.remove_keys(old_ones@.take(i + 1).to_set()));
                i = i + 1;
            }
            assert(old_ones@.take(old_ones@.len() as int) == old_ones@);
            assert(requests_in_flight@ =~= r.restrict(r.dom().filter(|n: Nonce| since(now, r[n].1) <= timeout)));
        }
    }

    /// The probe with the nonce was answered: it is no longer in flight, and its timers go.
    pub fn remove_from_tracked_messages(&mut self, nonce: Nonce)
        ensures
            final(self).config_view() == old(self).config_view(),
            !(old(self).state_view() is Running) ==> final(self).state_view() == old(self).state_view(),
            old(self).state_view() is Running ==> ({
                let t = probe_timers_of(old(self).state_view());
                &&& same_schedule(old(self).state_view(), final(self).state_view())
                &&& requests_of(final(self).state_view()) == requests_of(old(self).state_view()).remove(nonce)
                &&& probe_timers_of(final(self).state_view()) == t.restrict(t.dom().filter(|k: TimerId| t[k] != nonce))
            }),
    {
        if let PathProbingState::Running { requests_in_flight, probe_timers, .. } = &mut self.state {
            requests_in_flight.remove(&nonce);
            drop_timers_of(probe_timers, nonce);
        }
    }

    /// The timeout timer of a probe in flight fired (while running): the probe is given up
    /// with the timer, and its contact becomes invalid.
    pub fn invalidate_contact_for_timer(&mut self, timer_id: TimerId, contacts: &mut Vec<Contact>)
        requires
            old(self).state_view() is Running ==> probe_timers_of(old(self).state_view()).contains_key(timer_id)
                && requests_of(old(self).state_view()).contains_key(probe_timers_of(old(self).state_view())[timer_id]),
        ensures
            final(self).config_view() == old(self).config_view(),
            !(old(self).state_view() is Running) ==> final(self).state_view() == old(self).state_view()
                && final(contacts)@ == old(contacts)@,
            old(self).state_view() is Running ==> ({
                let t = probe_timers_of(old(self).state_view());
                let r = requests_of(old(self).state_view());
                &&& same_schedule(old(self).state_view(), final(self).state_view())
                &&& probe_timers_of(final(self).state_view()) == t.remove(timer_id)
                &&& requests_of(final(self).state_view()) == r.remove(t[timer_id])
                &&& invalidated(old(contacts)@, final(contacts)@, r[t[timer_id]].0)
            }),
    {
        if let PathProbingState::Running { requests_in_flight, probe_timers, .. } = &mut self.state {
            let nonce = match probe_timers.remove(&timer_id) {
                Some(n) => n,
                None => return,
            };
            let id = match requests_in_flight.remove(&nonce) {
                Some((id, _)) => id,
                None => return,
            };
            invalidate_id(contacts, id);
        }
    }

    /// An error answered the probe with the nonce, which is in flight (while running): the
    /// probe is given up with its timers, and its contact becomes invalid.
    pub fn invalidate_contact_for_message(&mut self, nonce: Nonce, contacts: &mut Vec<Contact>)
        requires
            old(self).state_view() is Running ==> requests_of(old(self).state_view()).contains_key(nonce),
        ensures
            final(self).config_view() == old(self).config_view(),
            !(old(self).state_view() is Running) ==> final(self).state_view() == old(self).state_view()
                && final(contacts)@ == old(contacts)@,
            old(self).state_view() is Running ==> ({
                let t = probe_timers_of(old(self).state_view());
                let r = requests_of(old(self).state_view());
                &&& same_schedule(old(self).state_view(), final(self).state_view())
                &&& requests_of(final(self).state_view()) == r.remove(nonce)
                &&& probe_timers_of(final(self).state_view()) == t.restrict(t.dom().filter(|k: TimerId| t[k] != nonce))
                &&& invalidated(old(contacts)@, final(contacts)@, r[nonce].0)
            }),
    {
        if let PathProbingState::Running { requests_in_flight, probe_timers, .. } = &mut self.state {
            let id = match requests_in_flight.remove(&nonce) {
                Some((id, _)) => id,
                None => return,
            };
            drop_timers_of(probe_timers, nonce);
            invalidate_id(contacts, id);
        }
    }

    /// The answer to a ProbeReq that traveled along the route: back along the same hops.
    pub fn send_probe_rsp(&self, route: &SourceRoute) -> (back: SourceRoute)
        requires
            route.wf(),
        ensures
            back.hops@ == route.traveled().reverse(),
            back.current == 0,
    {
        route.reversed()
    }

    /// Schedules a probe of the contact's proposed path (unless one is scheduled) at
    /// `now`. Whether the runtime has to register the timer of the scheduled probes (none
    /// is set yet) and pass it to [set_scheduled_timer](Self::set_scheduled_timer).
    pub fn schedule_path_probe_req(&mut self, id: NodeId, now: Micros) -> (needs_timer: bool)
        ensures
            final(self).config_view() == old(self).config_view(),
            !(old(self).state_view() is Running) ==> !needs_timer && final(self).state_view() == old(self).state_view(),
            old(self).state_view() is Running ==> ({
                let sc = scheduled_of(old(self).state_view());
                &&& final(self).state_view() is Running
                &&& needs_timer == (scheduled_timer_of(old(self).state_view()) is None)
                &&& scheduled_timer_of(final(self).state_view()) == scheduled_timer_of(old(self).state_view())
                &&& periodic_timer_of(final(self).state_view()) == periodic_timer_of(old(self).state_view())
                &&& requests_of(final(self).state_view()) == requests_of(old(self).state_view())
                &&& probe_timers_of(final(self).state_view()) == probe_timers_of(old(self).state_view())
                &&& scheduled_of(final(self).state_view()) == if sc.contains_key(id) {
                    sc
                } else {
                    sc.insert(id, now)
                }
            }),
    {
        if let PathProbingState::Running { scheduled_probe_requests, scheduled_sending_timer, .. } = &mut self.state {
            if !scheduled_probe_requests.contains_key(&id) {
                scheduled_probe_requests.insert(id, now);
            }
            scheduled_sending_timer.is_none()
        } else {
            false
        }
    }

    /// Records the timer of the scheduled probes that the runtime registered (while
    /// running).
    pub fn set_scheduled_timer(&mut self, timer_id: TimerId)
        ensures
            final(self).config_view() == old(self).config_view(),
            !(old(self).state_view() is Running) ==> final(self).state_view() == old(self).state_view(),
            old(self).state_view() is Running ==> final(self).state_view() is Running && scheduled_timer_of(
                final(self).state_view(),
            ) == Some(timer_id) && scheduled_of(final(self).state_view()) == scheduled_of(old(self).state_view())
                && periodic_timer_of(final(self).state_view()) == periodic_timer_of(old(self).state_view()) && requests_of(
                final(self).state_view(),
            ) == requests_of(old(self).state_view()) && probe_timers_of(final(self).state_view()) == probe_timers_of(
                old(self).state_view(),
            ),
    {
        if let PathProbingState::Running { scheduled_sending_timer, .. } = &mut self.state {
            *scheduled_sending_timer = Some(timer_id);
        }
    }

    /// A contact got a proposed path: a path of more than one hop that it did not have
    /// before is scheduled for a probe at `now` (see
    /// [schedule_path_probe_req](Self::schedule_path_probe_req)). Whether a timer is
    /// needed.
    pub fn contact_updated(
        &mut self,
        id: NodeId,
        old_proposed: Option<&Vec<NodeId>>,
        new_proposed: Option<&Vec<NodeId>>,
        now: Micros,
    ) -> (needs_timer: bool)
        ensures
            final(self).config_view() == old(self).config_view(),
            !path_appeared(old_proposed, new_proposed) ==> !needs_timer && final(self).state_view()
                == old(self).state_view(),
            path_appeared(old_proposed, new_proposed) ==> ({
                let sc = scheduled_of(old(self).state_view());
                &&& !(old(self).state_view() is Running) ==> !needs_timer && final(self).state_view() == old(self).state_view()
                &&& old(self).state_view() is Running ==> final(self).state_view() is Running && needs_timer == (
                scheduled_timer_of(old(self).state_view()) is None) && scheduled_of(final(self).state_view()) == if sc.contains_key(
                    id,
                ) {
                    sc
                } else {
                    sc.insert(id, now)
                } && requests_of(final(self).state_view()) == requests_of(old(self).state_view())
            }),
    {
        let appeared = match (old_proposed, new_proposed) {
            (None, Some(p)) => p.len() > 1,
            _ => false,
        };
        if appeared {
            self.schedule_path_probe_req(id, now)
        } else {
            false
        }
    }

    /// The timer of the scheduled probes fired at `now`: the scheduled probes older than
    /// half the delay are taken out, and each whose contact has a proposed path
    /// (`proposed`, from the routing table) is sent along it as a single probe without a
    /// timeout. Whether probes remain scheduled (then the runtime registers the timer
    /// again and passes it to [set_scheduled_timer](Self::set_scheduled_timer)).
    pub fn send_scheduled_probe_requests(
        &mut self,
        root: NodeId,
        now: Micros,
        proposed: &HashMap<NodeId, Vec<NodeId>>,
    ) -> (res: (Vec<PPAction>, bool))
        requires
            old(self).state_view() is Running,
        ensures
            final(self).config_view() == old(self).config_view(),
            final(self).state_view() is Running,
            ({
                let sc = scheduled_of(old(self).state_view());
                let half = old(self).config_view().scheduled_probe_delay / 2;
                let ripe = sc.dom().filter(|n: NodeId| since(now, sc[n]) > half);
                let sent = ripe.filter(|n: NodeId| proposed@.contains_key(n));
                &&& scheduled_of(final(self).state_view()) == sc.remove_keys(ripe)
                &&& res.1 == (sc.remove_keys(ripe).len() > 0)
                &&& scheduled_timer_of(final(self).state_view()) == scheduled_timer_of(old(self).state_view())
                &&& periodic_timer_of(final(self).state_view()) == periodic_timer_of(old(self).state_view())
                &&& probe_timers_of(final(self).state_view()) == probe_timers_of(old(self).state_view())
                &&& forall|k: int| 0 <= k < res.0@.len() ==> (#[trigger] res.0@[k] matches PPAction::SendProbeReq {
                    nonce,
                    route,
                    with_timeout,
                } && !with_timeout && exists|n: NodeId| sent.contains(n) && route@ == seq![root] + proposed@[n]@
                    && requests_of(final(self).state_view())[nonce] == (n, now))
                &&& forall|n: NodeId| #[trigger] sent.contains(n) ==> exists|k: int| 0 <= k < res.0@.len() && (#[trigger] res.0@[k] matches PPAction::SendProbeReq {
                    nonce,
                    ..
                } && requests_of(final(self).state_view())[nonce] == (n, now))
                &&& forall|m: Nonce| #[trigger] requests_of(old(self).state_view()).contains_key(m) ==> requests_of(final(self).state_view()).contains_key(m)
                    && requests_of(final(self).state_view())[m] == requests_of(old(self).state_view())[m]
            }),
    {
        let half = self.config.scheduled_probe_delay / 2;
        let ghost s0 = self.state_view();
        let ripe = match &mut self.state {
            PathProbingState::Running { scheduled_probe_requests, .. } => take_ripe(scheduled_probe_requests, now, half),
            _ => Vec::new(),
        };
        let remaining = match &self.state {
            PathProbingState::Running { scheduled_probe_requests, .. } => scheduled_probe_requests.len() > 0,
            _ => false,
        };
        let ghost sc = scheduled_of(s0);
        let ghost sent = sc.dom().filter(|n: NodeId| since(now, sc[n]) > half).filter(|n: NodeId| proposed@.contains_key(n));
        let mut actions: Vec<PPAction> = Vec::new();
        let mut i: usize = 0;
        while i < ripe.len()
            invariant
                i <= ripe@.len(),
                ripe@.no_duplicates(),
                forall|n: NodeId| ripe@.contains(n) <==> sc.contains_key(n) && since(now, sc[n]) > half,
                sent == sc.dom().filter(|n: NodeId| since(now, sc[n]) > half).filter(|n: NodeId| proposed@.contains_key(n)),
                self.state_view() is Running,
                self.config_view() == old(self).config_view(),
                scheduled_of(self.state_view()) == scheduled_of(s0).remove_keys(sc.dom().filter(|n: NodeId| since(now, sc[n]) > half)),
                sc == scheduled_of(s0),
                scheduled_timer_of(self.state_view()) == scheduled_timer_of(s0),
                periodic_timer_of(self.state_view()) == periodic_timer_of(s0),
                probe_timers_of(self.state_view()) == probe_timers_of(s0),
                forall|k: int| 0 <= k < actions@.len() ==> (#[trigger] actions@[k] matches PPAction::SendProbeReq {
                    nonce,
                    route,
                    with_timeout,
                } && !with_timeout && exists|n: NodeId| sent.contains(n) && route@ == seq![root] + proposed@[n]@
                    && requests_of(self.state_view()).contains_key(nonce) && requests_of(self.state_view())[nonce] == (n, now)),
                forall|j: int| 0 <= j < i && #[trigger] sent.contains(ripe@[j]) ==> exists|k: int| 0 <= k < actions@.len() && (#[trigger] actions@[k] matches PPAction::SendProbeReq {
                    nonce,
                    ..
                } && requests_of(self.state_view()).contains_key(nonce) && requests_of(self.state_view())[nonce] == (ripe@[j], now)),
                forall|k: int, l: int| 0 <= k < l < actions@.len() ==> probe_nonce(#[trigger] actions@[k]) != probe_nonce(#[trigger] actions@[l]),
                forall|k: int| 0 <= k < actions@.len() ==> (#[trigger] actions@[k]) is SendProbeReq,
                forall|m: Nonce| #[trigger] requests_of(s0).contains_key(m) ==> requests_of(self.state_view()).contains_key(m)
                    && requests_of(self.state_view())[m] == requests_of(s0)[m],
            decreases ripe@.len() - i,
        {
            let id = ripe[i];
            let ghost r0 = requests_of(self.state_view());
            let ghost a0 = actions@;
            if let Some(path) = proposed.get(&id) {
                let a = self.probe(root, id, path, now, false);
                actions.push(a);
                proof {
                    let n = probe_nonce(a);
                    let r1 = requests_of(self.state_view());
                    assert(sent.contains(id));
                    assert forall|k: int| 0 <= k < actions@.len() implies (#[trigger] actions@[k] matches PPAction::SendProbeReq {
                        nonce,
                        route,
                        with_timeout,
                    } && !with_timeout && exists|m: NodeId| sent.contains(m) && route@ == seq![root] + proposed@[m]@
                        && r1.contains_key(nonce) && r1[nonce] == (m, now)) by {
                        if k < a0.len() {
                            assert(actions@[k] == a0[k]);
                            assert(r0.contains_key(probe_nonce(a0[k])));
                            assert(probe_nonce(a0[k]) != n);
                        }
                    }
                    assert forall|j: int| 0 <= j <= i && #[trigger] sent.contains(ripe@[j]) implies exists|k: int| 0 <= k < actions@.len() && (#[trigger] actions@[k] matches PPAction::SendProbeReq {
                        nonce,
                        ..
                    } && r1.contains_key(nonce) && r1[nonce] == (ripe@[j], now)) by {
                        if j < i {
                            let k = choose|k: int| 0 <= k < a0.len() && (#[trigger] a0[k] matches PPAction::SendProbeReq {
                                nonce,
                                ..
                            } && r0.contains_key(nonce) && r0[nonce] == (ripe@[j], now));
                            assert(actions@[k] == a0[k]);
                            assert(probe_nonce(a0[k]) != n);
                        } else {
                            assert(actions@[actions@.len() - 1] == a);
                        }
                    }
                    assert forall|k: int, l: int| 0 <= k < l < actions@.len() implies probe_nonce(#[trigger] actions@[k]) != probe_nonce(#[trigger] actions@[l]) by {
                        if l == actions@.len() - 1 {
                            assert(actions@[k] == a0[k]);
                            assert(r0.contains_key(probe_nonce(a0[k])));
                        } else {
                            assert(actions@[k] == a0[k] && actions@[l] == a0[l]);
                        }
                    }
                    assert forall|m: Nonce| #[trigger] requests_of(s0).contains_key(m) implies r1.contains_key(m) && r1[m] == requests_of(s0)[m] by {
                        assert(r0.contains_key(m));
                        assert(m != n);
                    }
                }
            } else {
                proof {
                    assert(!sent.contains(id));
                    assert forall|j: int| 0 <= j <= i && #[trigger] sent.contains(ripe@[j]) implies exists|k: int| 0 <= k < actions@.len() && (#[trigger] actions@[k] matches PPAction::SendProbeReq {
                        nonce,
                        ..
                    } && requests_of(self.state_view()).contains_key(nonce) && requests_of(self.state_view())[nonce] == (ripe@[j], now)) by {
                        if j == i {
                            assert(ripe@[j] == id);
                        }
                    }
                }
            }
            i = i + 1;
        }
        proof {
            assert forall|n: NodeId| #[trigger] sent.contains(n) implies exists|k: int| 0 <= k < actions@.len() && (#[trigger] actions@[k] matches PPAction::SendProbeReq {
                nonce,
                ..
            } && requests_of(self.state_view())[nonce] == (n, now)) by {
                assert(ripe@.contains(n));
                let j = choose|j: int| 0 <= j < ripe@.len() && ripe@[j] == n;
                assert(sent.contains(ripe@[j]));
            }
        }
        (actions, remaining)
    }
}

/// Whether a contact that had no proposed path got one of more than one hop.
pub open spec fn path_appeared(old_proposed: Option<&Vec<NodeId>>, new_proposed: Option<&Vec<NodeId>>) -> bool {
    match (old_proposed, new_proposed) {
        (None, Some(p)) => p@.len() > 1,
        _ => false,
    }
}

/// The contacts with the id become invalid; the others stay.
pub open spec fn invalidated(before: Seq<Contact>, after: Seq<Contact>, id: NodeId) -> bool {
    &&& after.len() == before.len()
    &&& forall|i: int| 0 <= i < before.len() ==> {
        &&& (#[trigger] after[i]).id == before[i].id
        &&& after[i].path == before[i].path
        &&& after[i].state == if before[i].id == id {
            ContactState::Invalid
        } else {
            before[i].state
        }
    }
}

/// The contacts with the id become invalid.
fn invalidate_id(contacts: &mut Vec<Contact>, id: NodeId)
    ensures
        invalidated(old(contacts)@, final(contacts)@, id),
{
    let mut i: usize = 0;
    while i < contacts.len()
        invariant
            i <= contacts@.len(),
            contacts@.len() == old(contacts)@.len(),
            forall|j: int| i <= j < contacts@.len() ==> #[trigger] contacts@[j] == old(contacts)@[j],
            forall|j: int| 0 <= j < i ==> {
                &&& (#[trigger] contacts@[j]).id == old(contacts)@[j].id
                &&& contacts@[j].path == old(contacts)@[j].path
                &&& contacts@[j].state == if old(contacts)@[j].id == id {
                    ContactState::Invalid
                } else {
                    old(contacts)@[j].state
                }
            },
        decreases contacts@.len() - i,
    {
        if contacts[i].id == id {
            contacts[i].state = ContactState::Invalid;
        }
        i = i + 1;
    }
}

/// The probes in flight sent longer than the timeout before `now`.
fn stale_requests(requests: &HashMap<Nonce, (NodeId, Micros)>, now: Micros, timeout: Micros) -> (ns: Vec<Nonce>)
    ensures
        forall|n: Nonce| ns@.contains(n) <==> requests@.contains_key(n) && since(now, requests@[n].1) > timeout,
{
    let mut ns: Vec<Nonce> = Vec::new();
    for (n, v) in it: requests.iter()
        invariant
            forall|j: int| 0 <= j < ns.len() ==> requests@.contains_key(#[trigger] ns@[j]) && since(now, requests@[ns@[j]].1) > timeout,
            forall|i: int| 0 <= i < it.index() ==> since(now, (#[trigger] it.seq()[i]).1.1) > timeout ==> ns@.contains(*it.seq()[i].0),
    {
        let age: Micros = if now >= v.1 { now - v.1 } else { 0 };
        if age > timeout {
            assert(requests@.contains_key(*n) && requests@[*n] == *v);
            ns.push(*n);
            assert(ns@[ns.len() - 1] == *n);
        }
    }
    assert(forall|n: Nonce| requests@.contains_key(n) && since(now, requests@[n].1) > timeout ==> ns@.contains(n));
    ns
}

/// Removes the timers of the probe with the nonce.
fn drop_timers_of(timers: &mut HashMap<TimerId, Nonce>, nonce: Nonce)
    ensures
        final(timers)@ == old(timers)@.restrict(old(timers)@.dom().filter(|k: TimerId| old(timers)@[k] != nonce)),
{
    let mut ids: Vec<TimerId> = Vec::new();
    for (t, n) in it: timers.iter()
        invariant
            forall|j: int| 0 <= j < ids.len() ==> timers@.contains_key(#[trigger] ids@[j]) && timers@[ids@[j]] == nonce,
            forall|i: int| 0 <= i < it.index() ==> (#[trigger] it.seq()[i]).1 == nonce ==> ids@.contains(*it.seq()[i].0),
    {
        if *n == nonce {
            assert(timers@.contains_key(*t) && timers@[*t] == *n);
            ids.push(*t);
            assert(ids@[ids.len() - 1] == *t);
        }
    }
    let ghost m = timers@;
    assert(forall|k: TimerId| m.contains_key(k) && m[k] == nonce ==> ids@.contains(k));
    let mut i: usize = 0;
    while i < ids.len()
        invariant
            i <= ids@.len(),
            forall|k: TimerId| ids@.contains(k) <==> m.contains_key(k) && m[k] == nonce,
            m == old(timers)@,
            timers@ == m.remove_keys(ids@.take(i as int).to_set()),
        decreases ids@.len() - i,
    {
        timers.remove(&ids[i]);
        assert(ids@.take(i + 1).to_set() =~= ids@.take(i as int).to_set().insert(ids@[i as int]));
        assert(timers@ =~= m.remove_keys(ids@.take(i + 1).to_set()));
        i = i + 1;
    }
    assert(ids@.take(ids@.len() as int) == ids@);
    assert(timers@ =~= m.restrict(m.dom().filter(|k: TimerId| m[k] != nonce)));
}

/// Takes out the scheduled probes older than `half` at `now`, each once.
fn take_ripe(scheduled: &mut HashMap<NodeId, Micros>, now: Micros, half: Micros) -> (ripe: Vec<NodeId>)
    ensures
        ripe@.no_duplicates(),
        forall|n: NodeId| ripe@.contains(n) <==> old(scheduled)@.contains_key(n) && since(now, old(scheduled)@[n]) > half,
        final(scheduled)@ == old(scheduled)@.remove_keys(old(scheduled)@.dom().filter(|n: NodeId| since(now, old(scheduled)@[n]) > half)),
{
    let ghost m = scheduled@;
    let mut keys: Vec<NodeId> = Vec::new();
    for k in it: scheduled.keys()
        invariant
            it.seq() == scheduled.keys().remaining(),
            keys@.len() == it.index(),
            forall|i: int| 0 <= i < it.index() ==> keys@[i] == *(#[trigger] it.seq()[i]),
    {
        keys.push(*k);
    }
    proof {
        let sq = scheduled.keys().remaining();
        assert(sq.unref().to_set() == m.dom());
        assert(keys@ =~= sq.unref());
        assert forall|i: int, j: int| 0 <= i < keys@.len() && 0 <= j < keys@.len() && i != j implies keys@[i] != keys@[j] by {
            assert(sq[i] != sq[j]);
        }
    }
    let mut ids: Vec<NodeId> = Vec::new();
    let mut i: usize = 0;
    while i < keys.len()
        invariant
            m == scheduled@,
            keys@.no_duplicates(),
            keys@.to_set() == m.dom(),
            i <= keys@.len(),
            ids@.no_duplicates(),
            forall|j: int| 0 <= j < ids.len() ==> keys@.take(i as int).contains(#[trigger] ids@[j]) && m.contains_key(ids@[j]) && since(now, m[ids@[j]]) > half,
            forall|j: int| 0 <= j < i && since(now, m[#[trigger] keys@[j]]) > half ==> ids@.contains(keys@[j]),
        decreases keys@.len() - i,
    {
        let k = keys[i];
        assert(keys@.to_set().contains(k));
        let t = match scheduled.get(&k) {
            Some(t) => *t,
            None => 0,
        };
        let age: Micros = if now >= t { now - t } else { 0 };
        if age > half {
            assert(!ids@.contains(k)) by {
                if ids@.contains(k) {
                    let j = choose|j: int| 0 <= j < ids.len() && ids@[j] == k;
                    assert(keys@.take(i as int).contains(ids@[j]));
                    let l = choose|l: int| 0 <= l < i && keys@.take(i as int)[l] == k;
                    assert(keys@[l] == keys@[i as int]);
                }
            }
            ids.push(k);
            assert(ids@[ids.len() - 1] == k);
        }
        proof {
            assert forall|j: int| 0 <= j < ids.len() implies keys@.take(i + 1).contains(#[trigger] ids@[j]) by {
                if j == ids.len() - 1 && age > half {
                    assert(keys@.take(i + 1)[i as int] == k);
                } else {
                    assert(keys@.take(i as int).contains(ids@[j]));
                    let l = choose|l: int| 0 <= l < i && keys@.take(i as int)[l] == ids@[j];
                    assert(keys@.take(i + 1)[l] == ids@[j]);
                }
            }
        }
        i = i + 1;
    }
    proof {
        assert forall|n: NodeId| m.contains_key(n) && since(now, m[n]) > half implies ids@.contains(n) by {
            assert(keys@.to_set().contains(n));
            let l = choose|l: int| 0 <= l < keys@.len() && keys@[l] == n;
        }
        assert forall|j: int| 0 <= j < ids.len() implies m.contains_key(#[trigger] ids@[j]) && since(now, m[ids@[j]]) > half by {
        }
    }
    let mut i: usize = 0;
    while i < ids.len()
        invariant
            i <= ids@.len(),
            ids@.no_duplicates(),
            forall|n: NodeId| ids@.contains(n) <==> m.contains_key(n) && since(now, m[n]) > half,
            scheduled@ == m.remove_keys(ids@.take(i as int).to_set()),
        decreases ids@.len() - i,
    {
        scheduled.remove(&ids[i]);
        assert(ids@.take(i + 1).to_set() =~= ids@.take(i as int).to_set().insert(ids@[i as int]));
        assert(scheduled@ =~= m.remove_keys(ids@.take(i + 1).to_set()));
        i = i + 1;
    }
    assert(ids@.take(ids@.len() as int) == ids@);
    assert(ids@.to_set() =~= m.dom().filter(|n: NodeId| since(now, m[n]) > half));
    ids
}

} // verus!
