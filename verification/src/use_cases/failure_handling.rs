//! Failure handling: reacts to failed links and underlay neighbors by invalidating the
//! contacts whose paths they break, and rediscovers lost contacts with exact FindNodeReqs
//! through other contacts, round after round, until the contact is found again or given up.
//!
//! The routing table is handed in as the list of its contacts (one per id), together with
//! what only it can compute (the contacts closest to an id).

use std::collections::HashMap;

use vstd::prelude::*;

use crate::domain::{copy_path, Contact, ContactState, Micros, NodeId, Nonce, TimerId, UnderlayNeighborId};
use crate::use_cases::handle_overlay_discovery::{path_uses_link, uses_link, Link};
use crate::use_cases::ReactiveUseCaseState;
use crate::utils::inflight_req_map::InflightReqMap;

verus! {

broadcast use {vstd::std_specs::hash::group_hash_axioms, vstd::seq_lib::group_seq_properties};

/// Mean wait before rediscovering a lost underlay neighbor: 100 ms.
pub const REDISCOVERY_WAITTIME_ULN: Micros = 100_000;

/// Mean wait before rediscovering one of the id-wise closest contacts: 500 ms.
pub const REDISCOVERY_WAITTIME_CLOSEST_NEIGHBORS: Micros = 500_000;

/// Mean wait before rediscovering a contact whose first hop failed: 1 s.
pub const REDISCOVERY_WAITTIME_CONTACT_WITH_ULN: Micros = 1_000_000;

/// Mean wait before rediscovering any other contact: 2 s.
pub const REDISCOVERY_WAITTIME_OTHER: Micros = 2_000_000;

/// Time to wait for the answer to a rediscovery FindNodeReq: 250 ms.
pub const REDISCOVERY_TIMEOUT_MAX: Micros = 250_000;

/// Configuration of [FailureHandling].
#[derive(Debug, Clone, Copy, PartialEq, Eq, Structural)]
pub struct FailureHandlingConfig {
    /// Number of overlay neighbors to tell about a failed underlay neighbor.
    pub failure_notification_radius: usize,
    /// Number of bits grouped for the closeness of contacts.
    pub grouping_bits: u8,
    /// Number of contacts to try for a rediscovery (normally the bucket size).
    pub number_via_contacts: usize,
    /// Number of rounds of FindNodeReqs for one lost contact.
    pub max_retry_rounds: u32,
    /// Number of FindNodeReqs sent at once when a rediscovery starts (at least 1).
    pub rediscovery_parallelism: usize,
}

impl Default for FailureHandlingConfig {
    /// Three overlay neighbors to notify, one grouped bit, 20 list contacts, five rounds and
    /// two parallel requests.
    fn default() -> (c: Self)
        ensures
            c == (FailureHandlingConfig {
                failure_notification_radius: 3,
                grouping_bits: 1,
                number_via_contacts: 20,
                max_retry_rounds: 5,
                rediscovery_parallelism: 2,
            }),
    {
        FailureHandlingConfig {
            failure_notification_radius: 3,
            grouping_bits: 1,
            number_via_contacts: 20,
            max_retry_rounds: 5,
            rediscovery_parallelism: 2,
        }
    }
}

/// Errors of the failure handling.
#[derive(Debug, Clone, Copy, PartialEq, Eq, Structural)]
pub enum FailureHandlingError {
    /// The runtime handed out a timer id twice.
    DuplicateTimerId,
    /// A contact was in a state that the failure handling does not expect.
    WrongContactState,
}

impl FailureHandlingError {
    /// A description of the error.
    pub fn message(&self) -> (m: String)
        ensures
            m@ == (match *self {
                FailureHandlingError::DuplicateTimerId => "Runtime returned duplicate timer-id"@,
                FailureHandlingError::WrongContactState => "Wrong contact state"@,
            }),
    {
        match self {
            FailureHandlingError::DuplicateTimerId => String::from_str("Runtime returned duplicate timer-id"),
            FailureHandlingError::WrongContactState => String::from_str("Wrong contact state"),
        }
    }
}

/// The rediscovery of a lost contact: the links its paths must avoid, the contacts still
/// to ask, and the number of rounds done.
#[derive(Debug)]
pub struct RediscoveryState {
    pub not_via: Vec<Link>,
    pub via_contacts: Vec<NodeId>,
    pub retry_counter: u8,
}

/// A rediscovery seen from outside.
pub open spec fn rds_view(r: RediscoveryState) -> (Seq<Link>, Seq<NodeId>, u8) {
    (r.not_via@, r.via_contacts@, r.retry_counter)
}

/// An exact FindNodeReq of a rediscovery: for `target`, sent to the contact `list` along
/// `route` (this node first), with the links to avoid.
#[derive(Debug)]
pub struct RediscoveryRequest {
    pub target: NodeId,
    pub via: NodeId,
    pub route: Vec<NodeId>,
    pub not_via: Vec<Link>,
}

/// What the runtime is asked to do.
#[derive(Debug)]
pub enum FHAction {
    /// Send an UpdateRouteReq for `about` (reporting it unreachable) along `route` to the
    /// overlay neighbor at its end, with the links to avoid.
    SendUnreachable { about: NodeId, route: Vec<NodeId>, not_via: Vec<Link> },
    /// Register a timer of the wait and pass its id to
    /// [FailureHandling::schedule_rediscovery] with the contact.
    ScheduleRediscovery { contact: NodeId, wait: Micros },
}

/// Some contact has the id.
pub open spec fn has_contact(cs: Seq<Contact>, id: NodeId) -> bool {
    exists|i: int| 0 <= i < cs.len() && #[trigger] cs[i].id == id
}

/// Each id occurs once among the contacts.
pub open spec fn unique_ids(cs: Seq<Contact>) -> bool {
    forall|i: int, j: int| 0 <= i < cs.len() && 0 <= j < cs.len() && i != j ==> #[trigger] cs[i].id != #[trigger] cs[j].id
}

/// The index of the contact with the id.
pub open spec fn index_of(cs: Seq<Contact>, id: NodeId) -> int {
    choose|i: int| 0 <= i < cs.len() && cs[i].id == id
}

/// The contact with the id is valid.
pub open spec fn valid_contact(cs: Seq<Contact>, id: NodeId) -> bool {
    has_contact(cs, id) && cs[index_of(cs, id)].state == ContactState::Valid
}

/// Valid contacts have a path.
pub open spec fn valid_have_paths(cs: Seq<Contact>) -> bool {
    forall|i: int| 0 <= i < cs.len() && (#[trigger] cs[i]).state == ContactState::Valid ==> cs[i].path is Some
}

/// The valid contacts among the first `k` of `list`, in order.
pub open spec fn valid_prefix(list: Seq<NodeId>, cs: Seq<Contact>, k: int) -> Seq<NodeId>
    decreases k,
{
    if k <= 0 {
        seq![]
    } else {
        valid_prefix(list, cs, k - 1) + if valid_contact(cs, list[k - 1]) {
            seq![list[k - 1]]
        } else {
            seq![]
        }
    }
}

/// How many of `list`, from the `k`-th on, are looked at to find `n` valid contacts: up to
/// the `n`-th valid one, or all.
pub open spec fn scanned(list: Seq<NodeId>, cs: Seq<Contact>, n: nat, k: int) -> int
    decreases list.len() - k,
{
    if k >= list.len() {
        list.len() as int
    } else if valid_prefix(list, cs, k + 1).len() == n {
        k + 1
    } else {
        scanned(list, cs, n, k + 1)
    }
}

/// The valid contacts picked from `list` to find `n`.
pub open spec fn picked(list: Seq<NodeId>, cs: Seq<Contact>, n: nat) -> Seq<NodeId> {
    valid_prefix(list, cs, scanned(list, cs, n, 0))
}

/// The mean wait before a contact is rediscovered: short for underlay neighbors, then for
/// the id-wise closest contacts, then for contacts whose first hop failed.
pub open spec fn wait_time(is_uln: bool, is_close: bool, has_broken_first_hop: bool) -> Micros {
    if is_uln {
        REDISCOVERY_WAITTIME_ULN
    } else if is_close {
        REDISCOVERY_WAITTIME_CLOSEST_NEIGHBORS
    } else if has_broken_first_hop {
        REDISCOVERY_WAITTIME_CONTACT_WITH_ULN
    } else {
        REDISCOVERY_WAITTIME_OTHER
    }
}

/// The mean wait before the contact is rediscovered (see [wait_time]); whether it is one of
/// the closest contacts and whether its first hop failed the routing table tells.
pub fn rediscovery_wait_time(contact: &Contact, is_close: bool, has_broken_first_hop: bool) -> (w: Micros)
    ensures
        w == wait_time(contact.spec_is_uln(), is_close, has_broken_first_hop),
{
    if contact.is_uln() {
        REDISCOVERY_WAITTIME_ULN
    } else if is_close {
        REDISCOVERY_WAITTIME_CLOSEST_NEIGHBORS
    } else if has_broken_first_hop {
        REDISCOVERY_WAITTIME_CONTACT_WITH_ULN
    } else {
        REDISCOVERY_WAITTIME_OTHER
    }
}

/// The index of the contact with the id, if any.
fn find_contact(cs: &Vec<Contact>, id: NodeId) -> (r: Option<usize>)
    requires
        unique_ids(cs@),
    ensures
        r is None <==> !has_contact(cs@, id),
        r matches Some(i) ==> i < cs@.len() && cs@[i as int].id == id && i == index_of(cs@, id),
{
    let mut i: usize = 0;
    while i < cs.len()
        invariant
            i <= cs@.len(),
            unique_ids(cs@),
            forall|j: int| 0 <= j < i ==> (#[trigger] cs@[j]).id != id,
        decreases cs@.len() - i,
    {
        if cs[i].id == id {
            proof {
                assert(cs@[i as int].id == id);
                assert(has_contact(cs@, id));
                let k = index_of(cs@, id);
                assert(0 <= k < cs@.len() && cs@[k].id == id);
                if k != i {
                    assert(cs@[k].id != cs@[i as int].id);
                }
            }
            return Some(i);
        }
        i = i + 1;
    }
    None
}

/// Whether the contact with the id is valid.
fn contact_is_valid(cs: &Vec<Contact>, id: NodeId) -> (b: bool)
    requires
        unique_ids(cs@),
    ensures
        b == valid_contact(cs@, id),
{
    match find_contact(cs, id) {
        Some(i) => cs[i].state == ContactState::Valid,
        None => false,
    }
}

/// The picked contacts of `list` (see [picked]) and how many of `list` were looked at.
fn pick_valid(list: &Vec<NodeId>, cs: &Vec<Contact>, n: usize) -> (r: (Vec<NodeId>, usize))
    requires
        unique_ids(cs@),
        n >= 1,
    ensures
        r.1 == scanned(list@, cs@, n as nat, 0),
        r.0@ == picked(list@, cs@, n as nat),
        r.1 <= list@.len(),
{
    let mut out: Vec<NodeId> = Vec::new();
    let mut i: usize = 0;
    while i < list.len() && out.len() < n
        invariant
            i <= list@.len(),
            n >= 1,
            unique_ids(cs@),
            out@ == valid_prefix(list@, cs@, i as int),
            out@.len() <= n,
            out@.len() < n ==> scanned(list@, cs@, n as nat, 0) == scanned(list@, cs@, n as nat, i as int),
            out@.len() == n ==> scanned(list@, cs@, n as nat, 0) == i,
        decreases list@.len() - i,
    {
        let id = list[i];
        if contact_is_valid(cs, id) {
            out.push(id);
        }
        assert(out@ == valid_prefix(list@, cs@, i + 1));
        i = i + 1;
    }
    (out, i)
}

/// The nodes of `list` from the `k`-th on.
fn skip_ids(list: &Vec<NodeId>, k: usize) -> (rest: Vec<NodeId>)
    requires
        k <= list@.len(),
    ensures
        rest@ == list@.skip(k as int),
{
    let mut rest: Vec<NodeId> = Vec::new();
    let mut i: usize = k;
    while i < list.len()
        invariant
            k <= i <= list@.len(),
            rest@ == list@.subrange(k as int, i as int),
        decreases list@.len() - i,
    {
        rest.push(list[i]);
        i = i + 1;
    }
    rest
}

/// A copy of the links.
fn copy_links(links: &Vec<Link>) -> (c: Vec<Link>)
    ensures
        c@ == links@,
{
    let mut c: Vec<Link> = Vec::new();
    let mut i: usize = 0;
    while i < links.len()
        invariant
            i <= links@.len(),
            c@ == links@.take(i as int),
        decreases links@.len() - i,
    {
        c.push(links[i]);
        i = i + 1;
    }
    assert(links@.take(links@.len() as int) == links@);
    c
}

/// A copy of the ids.
fn copy_ids(ids: &Vec<NodeId>) -> (c: Vec<NodeId>)
    ensures
        c@ == ids@,
{
    copy_path(ids)
}

/// The route from `root` along the path.
fn route_along(root: NodeId, path: &Vec<NodeId>) -> (route: Vec<NodeId>)
    ensures
        route@ == seq![root] + path@,
{
    let mut route: Vec<NodeId> = Vec::new();
    route.push(root);
    let mut rest = copy_path(path);
    route.append(&mut rest);
    route
}


/// Every contact of the list whose path runs over the link becomes invalid; the others stay.
pub open spec fn invalidated_over_link(before: Seq<Contact>, after: Seq<Contact>, link: Link) -> bool {
    &&& after.len() == before.len()
    &&& forall|i: int| 0 <= i < before.len() ==> {
        &&& (#[trigger] after[i]).id == before[i].id
        &&& after[i].path == before[i].path
        &&& after[i].state == if before[i].path is Some && uses_link(before[i].path->0@, link) {
            ContactState::Invalid
        } else {
            before[i].state
        }
    }
}

/// The underlay neighbors reached through the underlay neighbor id.
pub open spec fn neighbors_via(uln_table: Map<NodeId, UnderlayNeighborId>, ulnid: UnderlayNeighborId) -> Set<NodeId> {
    uln_table.dom().filter(|n: NodeId| uln_table[n] == ulnid)
}

/// Every contact of the list whose path starts with one of the nodes becomes invalid; the
/// others stay.
pub open spec fn invalidated_through(before: Seq<Contact>, after: Seq<Contact>, firsts: Set<NodeId>) -> bool {
    &&& after.len() == before.len()
    &&& forall|i: int| 0 <= i < before.len() ==> {
        &&& (#[trigger] after[i]).id == before[i].id
        &&& after[i].path == before[i].path
        &&& after[i].state == if before[i].path is Some && before[i].path->0@.len() > 0 && firsts.contains(
            before[i].path->0@[0],
        ) {
            ContactState::Invalid
        } else {
            before[i].state
        }
    }
}

/// The contacts picked from a list are valid contacts of the list.
proof fn lemma_valid_prefix_valid(list: Seq<NodeId>, cs: Seq<Contact>, k: int)
    ensures
        forall|j: int| 0 <= j < valid_prefix(list, cs, k).len() ==> valid_contact(cs, #[trigger] valid_prefix(list, cs, k)[j]),
    decreases k,
{
    if k > 0 {
        lemma_valid_prefix_valid(list, cs, k - 1);
        let a = valid_prefix(list, cs, k - 1);
        assert forall|j: int| 0 <= j < valid_prefix(list, cs, k).len() implies valid_contact(cs, #[trigger] valid_prefix(list, cs, k)[j]) by {
            if j < a.len() {
                assert(valid_prefix(list, cs, k)[j] == a[j]);
            }
        }
    }
}

/// The request asks `via` for `target` along the path of `via` in the routing table, with
/// the links to avoid.
pub open spec fn is_request(q: RediscoveryRequest, root: NodeId, target: NodeId, via: NodeId, not_via: Seq<Link>, cs: Seq<Contact>) -> bool {
    &&& q.target == target
    &&& q.via == via
    &&& q.route@ == seq![root] + cs[index_of(cs, via)].path->0@
    &&& q.not_via@ == not_via
}

/// The routing table after the contact at the index took the state; ids and paths stay.
pub open spec fn with_state(before: Seq<Contact>, after: Seq<Contact>, idx: int, state: ContactState) -> bool {
    &&& after.len() == before.len()
    &&& forall|j: int| 0 <= j < before.len() && j != idx ==> #[trigger] after[j] == before[j]
    &&& after[idx].id == before[idx].id
    &&& after[idx].path == before[idx].path
    &&& after[idx].state == state
}

/// The failure handling use case.
#[derive(Debug)]
pub struct FailureHandling {
    state: ReactiveUseCaseState,
    config: FailureHandlingConfig,
    /// The rediscovery FindNodeReqs in flight: lost contact, timeout timer, nonce.
    rediscoveries: InflightReqMap,
    /// The timers after which the rediscovery of a contact starts.
    scheduled_rediscoveries: HashMap<TimerId, NodeId>,
    /// The rediscoveries under way, by lost contact.
    rediscovering: HashMap<NodeId, RediscoveryState>,
}

impl FailureHandling {
    /// The state.
    pub closed spec fn state_view(&self) -> ReactiveUseCaseState {
        self.state
    }

    /// The configuration.
    pub closed spec fn config_view(&self) -> FailureHandlingConfig {
        self.config
    }

    /// The FindNodeReqs in flight by timer: lost contact and nonce.
    pub closed spec fn timers(&self) -> Map<TimerId, (NodeId, Nonce)> {
        self.rediscoveries.timers()
    }

    /// The FindNodeReqs in flight by nonce: lost contact and timer.
    pub closed spec fn nonces(&self) -> Map<Nonce, (NodeId, TimerId)> {
        self.rediscoveries.nonces()
    }

    /// The scheduled rediscoveries by timer.
    pub closed spec fn scheduled(&self) -> Map<TimerId, NodeId> {
        self.scheduled_rediscoveries@
    }

    /// The rediscoveries under way by lost contact.
    pub closed spec fn rediscoveries(&self) -> Map<NodeId, (Seq<Link>, Seq<NodeId>, u8)> {
        self.rediscovering@.map_values(|r: RediscoveryState| rds_view(r))
    }

    /// Each request in flight is known by its timer and its nonce alike; the configuration
    /// sends at least one request at once; no rediscovery went beyond the last round.
    pub open spec fn wf(&self) -> bool {
        &&& self.consistent()
        &&& self.config_view().rediscovery_parallelism >= 1
        &&& forall|id: NodeId| #[trigger] self.rediscoveries().contains_key(id) ==> self.rediscoveries()[id].2
            <= self.config_view().max_retry_rounds as u8
    }

    /// The requests in flight are known by timer and by nonce alike.
    pub open spec fn consistent(&self) -> bool {
        &&& forall|t: TimerId| #[trigger] self.timers().contains_key(t) ==> {
            let (n, nc) = self.timers()[t];
            self.nonces().contains_key(nc) && self.nonces()[nc] == (n, t)
        }
        &&& forall|nc: Nonce| #[trigger] self.nonces().contains_key(nc) ==> {
            let (n, t) = self.nonces()[nc];
            self.timers().contains_key(t) && self.timers()[t] == (n, nc)
        }
    }

    /// Consistency depends on the requests in flight alone.
    proof fn lemma_consistent_kept(a: &Self, b: &Self)
        requires
            a.consistent(),
            b.timers() == a.timers(),
            b.nonces() == a.nonces(),
        ensures
            b.consistent(),
    {
        assert forall|t: TimerId| #[trigger] b.timers().contains_key(t) implies ({
            let (n, nc) = b.timers()[t];
            b.nonces().contains_key(nc) && b.nonces()[nc] == (n, t)
        }) by {
            assert(a.timers().contains_key(t));
        }
        assert forall|nc: Nonce| #[trigger] b.nonces().contains_key(nc) implies ({
            let (n, t) = b.nonces()[nc];
            b.timers().contains_key(t) && b.timers()[t] == (n, nc)
        }) by {
            assert(a.nonces().contains_key(nc));
        }
    }

    /// Well-formedness depends on the requests in flight, the configuration and the
    /// rediscoveries alone.
    proof fn lemma_wf_kept(a: &Self, b: &Self)
        requires
            a.wf(),
            b.timers() == a.timers(),
            b.nonces() == a.nonces(),
            b.config_view() == a.config_view(),
            b.rediscoveries() == a.rediscoveries(),
        ensures
            b.wf(),
    {
        Self::lemma_consistent_kept(a, b);
        assert forall|id: NodeId| #[trigger] b.rediscoveries().contains_key(id) implies b.rediscoveries()[id].2
            <= b.config_view().max_retry_rounds as u8 by {
            assert(a.rediscoveries().contains_key(id));
        }
    }

    /// The contact is being rediscovered: the routing table holds it in that state and its
    /// rediscovery is under way.
    pub open spec fn is_rediscovering(&self, cs: Seq<Contact>, id: NodeId) -> bool {
        &&& has_contact(cs, id)
        &&& cs[index_of(cs, id)].state == ContactState::Rediscovering
        &&& self.rediscoveries().contains_key(id)
    }

    /// A request for the node is in flight.
    pub open spec fn in_flight(&self, id: NodeId) -> bool {
        exists|n: Nonce| #[trigger] self.nonces().contains_key(n) && self.nonces()[n].0 == id
    }

    /// Everything but the rediscoveries stays.
    pub open spec fn same_but_rediscoveries(&self, other: &Self) -> bool {
        &&& self.state_view() == other.state_view()
        &&& self.config_view() == other.config_view()
        &&& self.timers() == other.timers()
        &&& self.nonces() == other.nonces()
        &&& self.scheduled() == other.scheduled()
    }

    /// Creates the use case, idle and without rediscoveries.
    pub fn new(config: FailureHandlingConfig) -> (fh: Self)
        requires
            config.rediscovery_parallelism >= 1,
        ensures
            fh.wf(),
            fh.state_view() == ReactiveUseCaseState::Idle,
            fh.config_view() == config,
            fh.timers() == Map::<TimerId, (NodeId, Nonce)>::empty(),
            fh.nonces() == Map::<Nonce, (NodeId, TimerId)>::empty(),
            fh.scheduled() == Map::<TimerId, NodeId>::empty(),
            fh.rediscoveries() == Map::<NodeId, (Seq<Link>, Seq<NodeId>, u8)>::empty(),
    {
        let fh = FailureHandling {
            state: ReactiveUseCaseState::Idle,
            config,
            rediscoveries: InflightReqMap::default(),
            scheduled_rediscoveries: HashMap::new(),
            rediscovering: HashMap::new(),
        };
        assert(fh.rediscoveries() =~= Map::<NodeId, (Seq<Link>, Seq<NodeId>, u8)>::empty());
        fh
    }

    /// The current state.
    pub fn state(&self) -> (s: &ReactiveUseCaseState)
        ensures
            *s == self.state_view(),
    {
        &self.state
    }

    /// Takes the next contacts of the rediscovery of `id` to ask: the first `n` valid ones
    /// of its via contacts (see [picked]), dropping those looked at; `None` if the contact
    /// is not being rediscovered or none was found.
    fn extract_eligible_via_contacts(&mut self, cs: &Vec<Contact>, id: NodeId, n: usize) -> (res: Option<Vec<NodeId>>)
        requires
            old(self).wf(),
            unique_ids(cs@),
            n >= 1,
        ensures
            final(self).wf(),
            final(self).same_but_rediscoveries(old(self)),
            !old(self).is_rediscovering(cs@, id) ==> res is None && final(self).rediscoveries() == old(self).rediscoveries(),
            old(self).is_rediscovering(cs@, id) ==> ({
                let r = old(self).rediscoveries()[id];
                let k = scanned(r.1, cs@, n as nat, 0);
                let p = picked(r.1, cs@, n as nat);
                &&& final(self).rediscoveries() == old(self).rediscoveries().insert(id, (r.0, r.1.skip(k), r.2))
                &&& (res is None <==> p.len() == 0)
                &&& (res matches Some(v) ==> v@ == p)
            }),
    {
        let i = match find_contact(cs, id) {
            Some(i) => i,
            None => return None,
        };
        if cs[i].state != ContactState::Rediscovering {
            return None;
        }
        let r = match self.rediscovering.remove(&id) {
            Some(r) => r,
            None => {
                assert(self.rediscovering@ =~= old(self).rediscovering@);
                assert(self.rediscoveries() =~= old(self).rediscoveries());
                proof {
                    Self::lemma_consistent_kept(old(self), self);
                }
                return None;
            },
        };
        let (chosen, k) = pick_valid(&r.via_contacts, cs, n);
        let rest = skip_ids(&r.via_contacts, k);
        let ghost before = self.rediscovering@;
        self.rediscovering.insert(id, RediscoveryState { not_via: r.not_via, via_contacts: rest, retry_counter: r.retry_counter });
        proof {
            assert(self.rediscoveries() =~= old(self).rediscoveries().insert(
                id,
                (rds_view(r).0, rds_view(r).1.skip(k as int), rds_view(r).2),
            ));
            Self::lemma_consistent_kept(old(self), self);
        }
        if chosen.len() > 0 {
            Some(chosen)
        } else {
            None
        }
    }

    /// Records that the rediscovery of the contact starts when the timer fires.
    pub fn schedule_rediscovery(&mut self, timer_id: TimerId, contact: NodeId)
        requires
            old(self).wf(),
        ensures
            final(self).wf(),
            final(self).scheduled() == old(self).scheduled().insert(timer_id, contact),
            final(self).state_view() == old(self).state_view(),
            final(self).config_view() == old(self).config_view(),
            final(self).timers() == old(self).timers(),
            final(self).nonces() == old(self).nonces(),
            final(self).rediscoveries() == old(self).rediscoveries(),
    {
        self.scheduled_rediscoveries.insert(timer_id, contact);
        proof {
            Self::lemma_wf_kept(old(self), self);
        }
    }

    /// The timer fired: if it was scheduled for the rediscovery of a contact, that contact
    /// (and the schedule is over).
    pub fn take_scheduled(&mut self, timer_id: TimerId) -> (contact: Option<NodeId>)
        requires
            old(self).wf(),
        ensures
            final(self).wf(),
            contact == old(self).scheduled().get(timer_id),
            final(self).scheduled() == old(self).scheduled().remove(timer_id),
            final(self).state_view() == old(self).state_view(),
            final(self).config_view() == old(self).config_view(),
            final(self).timers() == old(self).timers(),
            final(self).nonces() == old(self).nonces(),
            final(self).rediscoveries() == old(self).rediscoveries(),
    {
        let contact = self.scheduled_rediscoveries.remove(&timer_id);
        proof {
            Self::lemma_wf_kept(old(self), self);
        }
        contact
    }

    /// Starts the rediscovery of a contact that became invalid (with the links its path
    /// must avoid): a lost underlay neighbor is first reported unreachable to the closest
    /// overlay neighbors (`closest_own`, of which the first `failure_notification_radius`
    /// are told); the contact turns to rediscovering, with the contacts closest to it as
    /// the ones to ask, and its rediscovery is scheduled after its wait time. A contact that
    /// is not invalid is refused.
    pub fn start_rediscovery(
        &mut self,
        root: NodeId,
        contact: &Contact,
        not_via: &Vec<Link>,
        closest_own: &Vec<Contact>,
        closest_to_contact: &Vec<NodeId>,
        contacts: &mut Vec<Contact>,
        is_close: bool,
        has_broken_first_hop: bool,
    ) -> (res: Result<Vec<FHAction>, FailureHandlingError>)
        requires
            old(self).wf(),
            unique_ids(old(contacts)@),
            contact.state == ContactState::Invalid ==> has_contact(old(contacts)@, contact.id),
            forall|i: int| 0 <= i < closest_own@.len() ==> (#[trigger] closest_own@[i]).path is Some,
        ensures
            final(self).wf(),
            final(self).same_but_rediscoveries(old(self)),
            contact.state != ContactState::Invalid ==> res == Err::<Vec<FHAction>, _>(FailureHandlingError::WrongContactState)
                && final(self).rediscoveries() == old(self).rediscoveries() && final(contacts)@ == old(contacts)@,
            contact.state == ContactState::Invalid ==> ({
                let told: int = if contact.spec_is_uln() {
                    if closest_own@.len() < old(self).config_view().failure_notification_radius {
                        closest_own@.len() as int
                    } else {
                        old(self).config_view().failure_notification_radius as int
                    }
                } else {
                    0
                };
                let idx = index_of(old(contacts)@, contact.id);
                &&& res matches Ok(actions) && actions@.len() == told + 1 && (forall|j: int|
                    0 <= j < told ==> (#[trigger] actions@[j] matches FHAction::SendUnreachable { about, route, not_via: nv }
                        && about == contact.id && route@ == seq![root] + closest_own@[j].path->0@ && nv@ == not_via@))
                    && actions@[told] == (FHAction::ScheduleRediscovery {
                    contact: contact.id,
                    wait: wait_time(contact.spec_is_uln(), is_close, has_broken_first_hop),
                })
                &&& final(contacts)@.len() == old(contacts)@.len()
                &&& forall|j: int| 0 <= j < old(contacts)@.len() && j != idx ==> #[trigger] final(contacts)@[j] == old(contacts)@[j]
                &&& final(contacts)@[idx].id == old(contacts)@[idx].id
                &&& final(contacts)@[idx].path == old(contacts)@[idx].path
                &&& final(contacts)@[idx].state == ContactState::Rediscovering
                &&& final(self).rediscoveries() == old(self).rediscoveries().insert(contact.id, (not_via@, closest_to_contact@, 0u8))
            }),
    {
        if contact.state != ContactState::Invalid {
            return Err(FailureHandlingError::WrongContactState);
        }
        let mut actions: Vec<FHAction> = Vec::new();
        if contact.is_uln() {
            let radius = self.config.failure_notification_radius;
            let told: usize = if closest_own.len() < radius { closest_own.len() } else { radius };
            let mut j: usize = 0;
            while j < told
                invariant
                    j <= told,
                    told <= closest_own@.len(),
                    forall|i: int| 0 <= i < closest_own@.len() ==> (#[trigger] closest_own@[i]).path is Some,
                    actions@.len() == j,
                    forall|i: int| 0 <= i < j ==> (#[trigger] actions@[i] matches FHAction::SendUnreachable { about, route, not_via: nv }
                        && about == contact.id && route@ == seq![root] + closest_own@[i].path->0@ && nv@ == not_via@),
                decreases told - j,
            {
                let route = match &closest_own[j].path {
                    Some(p) => route_along(root, p),
                    None => Vec::new(),
                };
                actions.push(FHAction::SendUnreachable { about: contact.id, route, not_via: copy_links(not_via) });
                j = j + 1;
            }
        }
        let idx = match find_contact(contacts, contact.id) {
            Some(i) => i,
            None => return Err(FailureHandlingError::WrongContactState),
        };
        contacts[idx].state = ContactState::Rediscovering;
        let ghost before = self.rediscovering@;
        self.rediscovering.insert(
            contact.id,
            RediscoveryState { not_via: copy_links(not_via), via_contacts: copy_ids(closest_to_contact), retry_counter: 0 },
        );
        proof {
            assert(self.rediscoveries() =~= old(self).rediscoveries().insert(contact.id, (not_via@, closest_to_contact@, 0u8)));
            Self::lemma_consistent_kept(old(self), self);
        }
        actions.push(FHAction::ScheduleRediscovery {
            contact: contact.id,
            wait: rediscovery_wait_time(contact, is_close, has_broken_first_hop),
        });
        Ok(actions)
    }

    /// The use case's consistency is that of its map of requests.
    proof fn lemma_bridge(&self)
        ensures
            self.consistent() == self.rediscoveries.consistent(),
    {
        let m = self.rediscoveries;
        assert(self.timers() == m.timers() && self.nonces() == m.nonces());
        if self.consistent() {
            assert forall|t: TimerId| #[trigger] m.timers().contains_key(t) implies ({
                let (n, nc) = m.timers()[t];
                m.nonces().contains_key(nc) && m.nonces()[nc] == (n, t)
            }) by {
                assert(self.timers().contains_key(t));
            }
            assert forall|nc: Nonce| #[trigger] m.nonces().contains_key(nc) implies ({
                let (n, t) = m.nonces()[nc];
                m.timers().contains_key(t) && m.timers()[t] == (n, nc)
            }) by {
                assert(self.nonces().contains_key(nc));
            }
        }
        if m.consistent() {
            assert forall|t: TimerId| #[trigger] self.timers().contains_key(t) implies ({
                let (n, nc) = self.timers()[t];
                self.nonces().contains_key(nc) && self.nonces()[nc] == (n, t)
            }) by {
                assert(m.timers().contains_key(t));
            }
            assert forall|nc: Nonce| #[trigger] self.nonces().contains_key(nc) implies ({
                let (n, t) = self.nonces()[nc];
                self.timers().contains_key(t) && self.timers()[t] == (n, nc)
            }) by {
                assert(m.nonces().contains_key(nc));
            }
        }
    }

    /// Tracks a FindNodeReq of the rediscovery of `target` guarded by the timer, under a
    /// nonce that no request in flight uses, and returns the nonce; `None` if the timer is
    /// already in use (the runtime then registers another).
    pub fn track_rediscovery(&mut self, target: NodeId, timer_id: TimerId) -> (nonce: Option<Nonce>)
        requires
            old(self).wf(),
        ensures
            final(self).wf(),
            final(self).state_view() == old(self).state_view(),
            final(self).config_view() == old(self).config_view(),
            final(self).scheduled() == old(self).scheduled(),
            final(self).rediscoveries() == old(self).rediscoveries(),
            old(self).timers().contains_key(timer_id) ==> nonce is None && final(self).timers() == old(self).timers()
                && final(self).nonces() == old(self).nonces(),
            !old(self).timers().contains_key(timer_id) ==> (nonce matches Some(n) && !old(self).nonces().contains_key(n)
                && final(self).nonces() == old(self).nonces().insert(n, (target, timer_id)) && final(self).timers()
                == old(self).timers().insert(timer_id, (target, n))),
    {
        let n = self.rediscoveries.fresh_nonce();
        let r = self.rediscoveries.insert((target, timer_id, n));
        proof {
            old(self).lemma_bridge();
            self.lemma_bridge();
            if !old(self).timers().contains_key(timer_id) {
                crate::utils::inflight_req_map::law_insert_keeps_consistent(
                    old(self).rediscoveries,
                    self.rediscoveries,
                    (target, timer_id, n),
                );
            }
            assert(self.rediscoveries() == old(self).rediscoveries());
            assert forall|id: NodeId| #[trigger] self.rediscoveries().contains_key(id) implies self.rediscoveries()[id].2
                <= self.config_view().max_retry_rounds as u8 by {
                assert(old(self).rediscoveries().contains_key(id));
            }
        }
        match r {
            Ok(()) => Some(n),
            Err(_) => None,
        }
    }

    /// Tracks the FindNodeReq of a further round like [track_rediscovery](Self::track_rediscovery);
    /// a timer that is already in use puts the use case in the error state.
    pub fn track_retry(&mut self, target: NodeId, timer_id: TimerId) -> (res: Result<Nonce, FailureHandlingError>)
        requires
            old(self).wf(),
        ensures
            final(self).wf(),
            final(self).config_view() == old(self).config_view(),
            final(self).scheduled() == old(self).scheduled(),
            final(self).rediscoveries() == old(self).rediscoveries(),
            old(self).timers().contains_key(timer_id) ==> res == Err::<Nonce, _>(FailureHandlingError::DuplicateTimerId)
                && final(self).state_view() == ReactiveUseCaseState::Error && final(self).timers() == old(self).timers()
                && final(self).nonces() == old(self).nonces(),
            !old(self).timers().contains_key(timer_id) ==> (res matches Ok(n) && !old(self).nonces().contains_key(n)
                && final(self).state_view() == old(self).state_view() && final(self).nonces() == old(self).nonces().insert(
                n,
                (target, timer_id),
            ) && final(self).timers() == old(self).timers().insert(timer_id, (target, n))),
    {
        match self.track_rediscovery(target, timer_id) {
            Some(n) => Ok(n),
            None => {
                self.state = ReactiveUseCaseState::Error;
                proof {
                    Self::lemma_wf_kept(old(self), self);
                }
                Err(FailureHandlingError::DuplicateTimerId)
            },
        }
    }

    /// A FindNodeReq of a rediscovery failed (an error answered it: its nonce; or it timed
    /// out: its timer): it is no longer tracked, and the contact it was for comes back;
    /// `None` if it was not tracked.
    pub fn fail_rediscovery(&mut self, nonce: Option<Nonce>, timer_id: Option<TimerId>) -> (node: Option<NodeId>)
        requires
            old(self).wf(),
            nonce is Some || timer_id is Some,
        ensures
            final(self).wf(),
            final(self).state_view() == old(self).state_view(),
            final(self).config_view() == old(self).config_view(),
            final(self).scheduled() == old(self).scheduled(),
            final(self).rediscoveries() == old(self).rediscoveries(),
            match nonce {
                Some(n) => if old(self).nonces().contains_key(n) {
                    &&& node == Some(old(self).nonces()[n].0)
                    &&& final(self).nonces() == old(self).nonces().remove(n)
                    &&& final(self).timers() == old(self).timers().remove(old(self).nonces()[n].1)
                } else {
                    node is None && final(self).nonces() == old(self).nonces() && final(self).timers() == old(self).timers()
                },
                None => if old(self).timers().contains_key(timer_id->0) {
                    &&& node == Some(old(self).timers()[timer_id->0].0)
                    &&& final(self).timers() == old(self).timers().remove(timer_id->0)
                    &&& final(self).nonces() == old(self).nonces().remove(old(self).timers()[timer_id->0].1)
                } else {
                    node is None && final(self).nonces() == old(self).nonces() && final(self).timers() == old(self).timers()
                },
            },
    {
        proof {
            old(self).lemma_bridge();
        }
        let node = match nonce {
            Some(n) => {
                if !self.rediscoveries.nonce_exists(&n) {
                    return None;
                }
                match self.rediscoveries.remove_by_nonce(n) {
                    Some((id, _)) => Some(id),
                    None => None,
                }
            },
            None => {
                let t = match timer_id {
                    Some(t) => t,
                    None => return None,
                };
                if !self.rediscoveries.timer_exists(&t) {
                    return None;
                }
                match self.rediscoveries.remove_by_timer(&t) {
                    Some((id, _)) => Some(id),
                    None => None,
                }
            },
        };
        proof {
            self.lemma_bridge();
            match nonce {
                Some(n) => {
                    crate::utils::inflight_req_map::law_remove_keeps_consistent(old(self).rediscoveries, self.rediscoveries, n);
                },
                None => {
                    let t = timer_id->0;
                    let nc = old(self).timers()[t].1;
                    assert(old(self).nonces().contains_key(nc));
                    crate::utils::inflight_req_map::law_remove_keeps_consistent(old(self).rediscoveries, self.rediscoveries, nc);
                },
            }
            assert(self.rediscoveries() == old(self).rediscoveries());
            assert forall|id: NodeId| #[trigger] self.rediscoveries().contains_key(id) implies self.rediscoveries()[id].2
                <= self.config_view().max_retry_rounds as u8 by {
                assert(old(self).rediscoveries().contains_key(id));
            }
        }
        node
    }

    /// A FindNodeRsp answered a rediscovery: the request is no longer tracked. Whether it
    /// was one.
    pub fn rediscovery_answered(&mut self, nonce: Nonce) -> (answered: bool)
        requires
            old(self).wf(),
        ensures
            final(self).wf(),
            final(self).state_view() == old(self).state_view(),
            final(self).config_view() == old(self).config_view(),
            final(self).scheduled() == old(self).scheduled(),
            final(self).rediscoveries() == old(self).rediscoveries(),
            answered == old(self).nonces().contains_key(nonce),
            old(self).nonces().contains_key(nonce) ==> final(self).nonces() == old(self).nonces().remove(nonce)
                && final(self).timers() == old(self).timers().remove(old(self).nonces()[nonce].1),
            !old(self).nonces().contains_key(nonce) ==> final(self).nonces() == old(self).nonces() && final(self).timers()
                == old(self).timers(),
    {
        match self.fail_rediscovery(Some(nonce), None) {
            Some(_) => true,
            None => false,
        }
    }

    /// The contact left the routing table: its requests in flight are no longer tracked.
    pub fn contact_removed(&mut self, id: NodeId)
        requires
            old(self).wf(),
        ensures
            final(self).wf(),
            final(self).state_view() == old(self).state_view(),
            final(self).config_view() == old(self).config_view(),
            final(self).scheduled() == old(self).scheduled(),
            final(self).rediscoveries() == old(self).rediscoveries(),
            final(self).timers() == old(self).timers().restrict(
                old(self).timers().dom().filter(|t: TimerId| old(self).timers()[t].0 != id),
            ),
            final(self).nonces() == old(self).nonces().restrict(
                old(self).nonces().dom().filter(|n: Nonce| old(self).nonces()[n].0 != id),
            ),
    {
        self.rediscoveries.remove_by_id(&id);
        proof {
            old(self).lemma_bridge();
            self.lemma_bridge();
            crate::utils::inflight_req_map::law_remove_by_id_keeps_consistent(old(self).rediscoveries, self.rediscoveries, id);
            assert(self.rediscoveries() == old(self).rediscoveries());
            assert forall|k: NodeId| #[trigger] self.rediscoveries().contains_key(k) implies self.rediscoveries()[k].2
                <= self.config_view().max_retry_rounds as u8 by {
                assert(old(self).rediscoveries().contains_key(k));
            }
        }
    }

    /// The request asking the valid contact `via` for `target`.
    fn request_for(
        &self,
        root: NodeId,
        cs: &Vec<Contact>,
        target: NodeId,
        via: NodeId,
    ) -> (q: RediscoveryRequest)
        requires
            unique_ids(cs@),
            valid_have_paths(cs@),
            valid_contact(cs@, via),
            self.rediscoveries().contains_key(target),
        ensures
            is_request(q, root, target, via, self.rediscoveries()[target].0, cs@),
    {
        let route = match find_contact(cs, via) {
            Some(i) => match &cs[i].path {
                Some(p) => route_along(root, p),
                None => Vec::new(),
            },
            None => Vec::new(),
        };
        let not_via = match self.rediscovering.get(&target) {
            Some(r) => copy_links(&r.not_via),
            None => Vec::new(),
        };
        RediscoveryRequest { target, via, route, not_via }
    }

    /// The rediscovery of the contact starts: FindNodeReqs go to the first
    /// `rediscovery_parallelism` valid contacts among those to ask (which leave the list);
    /// nothing is sent if the contact is no longer being rediscovered. The runtime tracks
    /// each with [track_rediscovery](Self::track_rediscovery) before sending it.
    pub fn rediscovery_requests(&mut self, root: NodeId, cs: &Vec<Contact>, id: NodeId) -> (reqs: Vec<RediscoveryRequest>)
        requires
            old(self).wf(),
            unique_ids(cs@),
            valid_have_paths(cs@),
        ensures
            final(self).wf(),
            final(self).same_but_rediscoveries(old(self)),
            !old(self).is_rediscovering(cs@, id) ==> reqs@.len() == 0 && final(self).rediscoveries() == old(self).rediscoveries(),
            old(self).is_rediscovering(cs@, id) ==> ({
                let r = old(self).rediscoveries()[id];
                let n = old(self).config_view().rediscovery_parallelism as nat;
                let p = picked(r.1, cs@, n);
                &&& final(self).rediscoveries() == old(self).rediscoveries().insert(id, (r.0, r.1.skip(scanned(r.1, cs@, n, 0)), r.2))
                &&& reqs@.len() == p.len()
                &&& forall|j: int| 0 <= j < p.len() ==> is_request(#[trigger] reqs@[j], root, id, p[j], r.0, cs@)
            }),
    {
        let n = self.config.rediscovery_parallelism;
        let mut reqs: Vec<RediscoveryRequest> = Vec::new();
        let chosen = match self.extract_eligible_via_contacts(cs, id, n) {
            Some(v) => v,
            None => return reqs,
        };
        proof {
            let r = old(self).rediscoveries()[id];
            lemma_valid_prefix_valid(r.1, cs@, scanned(r.1, cs@, n as nat, 0));
            assert(self.rediscoveries().contains_key(id));
        }
        let mut j: usize = 0;
        while j < chosen.len()
            invariant
                j <= chosen@.len(),
                unique_ids(cs@),
                valid_have_paths(cs@),
                self.rediscoveries().contains_key(id),
                forall|k: int| 0 <= k < chosen@.len() ==> valid_contact(cs@, #[trigger] chosen@[k]),
                reqs@.len() == j,
                forall|k: int| 0 <= k < j ==> is_request(#[trigger] reqs@[k], root, id, chosen@[k], self.rediscoveries()[id].0, cs@),
            decreases chosen@.len() - j,
        {
            let q = self.request_for(root, cs, id, chosen[j]);
            reqs.push(q);
            j = j + 1;
        }
        reqs
    }

    /// A FindNodeReq of the rediscovery of `node` failed: the next valid contact to ask is
    /// taken. When none is left, another round starts with the contacts now closest to
    /// `node` (`closest_to_node`), unless the last round is done: then the contact is dead
    /// if no other request for it is in flight. The request to send next, if any; the
    /// runtime tracks it with [track_retry](Self::track_retry) before sending it.
    pub fn retry_rediscovery(
        &mut self,
        root: NodeId,
        contacts: &mut Vec<Contact>,
        node: NodeId,
        closest_to_node: &Vec<NodeId>,
    ) -> (req: Option<RediscoveryRequest>)
        requires
            old(self).wf(),
            unique_ids(old(contacts)@),
            valid_have_paths(old(contacts)@),
        ensures
            final(self).wf(),
            final(self).same_but_rediscoveries(old(self)),
            ({
                let cs = old(contacts)@;
                let max = old(self).config_view().max_retry_rounds as u8;
                if !old(self).is_rediscovering(cs, node) {
                    &&& req is None
                    &&& final(self).rediscoveries() == old(self).rediscoveries()
                    &&& final(contacts)@ == cs
                } else {
                    let r = old(self).rediscoveries()[node];
                    let k1 = scanned(r.1, cs, 1, 0);
                    let p1 = picked(r.1, cs, 1);
                    let k2 = scanned(closest_to_node@, cs, 1, 0);
                    let p2 = picked(closest_to_node@, cs, 1);
                    if p1.len() > 0 {
                        &&& final(self).rediscoveries() == old(self).rediscoveries().insert(node, (r.0, r.1.skip(k1), r.2))
                        &&& final(contacts)@ == cs
                        &&& req matches Some(q) && is_request(q, root, node, p1.last(), r.0, cs)
                    } else if r.2 < max {
                        &&& final(self).rediscoveries() == old(self).rediscoveries().insert(
                            node,
                            (r.0, closest_to_node@.skip(k2), (r.2 + 1) as u8),
                        )
                        &&& final(contacts)@ == cs
                        &&& (p2.len() == 0 ==> req is None)
                        &&& (p2.len() > 0 ==> (req matches Some(q) && is_request(q, root, node, p2.last(), r.0, cs)))
                    } else {
                        &&& final(self).rediscoveries() == old(self).rediscoveries().insert(node, (r.0, r.1.skip(k1), r.2))
                        &&& req is None
                        &&& if old(self).in_flight(node) {
                            final(contacts)@ == cs
                        } else {
                            with_state(cs, final(contacts)@, index_of(cs, node), ContactState::Dead)
                        }
                    }
                }
            }),
    {
        let ghost cs = contacts@;
        let first = self.extract_eligible_via_contacts(contacts, node, 1);
        let via = match first {
            Some(v) => {
                proof {
                    let r = old(self).rediscoveries()[node];
                    lemma_valid_prefix_valid(r.1, cs, scanned(r.1, cs, 1, 0));
                }
                v[v.len() - 1]
            },
            None => {
                let i = match find_contact(contacts, node) {
                    Some(i) => i,
                    None => return None,
                };
                if contacts[i].state != ContactState::Rediscovering {
                    return None;
                }
                let ghost mid = *self;
                proof {
                    assert(mid.rediscoveries().dom() =~= mid.rediscovering@.dom());
                    if old(self).is_rediscovering(cs, node) {
                        assert(mid.rediscoveries().contains_key(node));
                    }
                }
                let mut r = match self.rediscovering.remove(&node) {
                    Some(r) => r,
                    None => {
                        assert(self.rediscovering@ =~= mid.rediscovering@);
                        assert(self.rediscoveries() =~= mid.rediscoveries());
                        proof {
                            Self::lemma_wf_kept(&mid, self);
                        }
                        return None;
                    },
                };
                proof {
                    assert(mid.rediscovering@.contains_key(node));
                    assert(mid.rediscoveries().contains_key(node));
                    if !old(self).is_rediscovering(cs, node) {
                        assert(mid.rediscoveries() == old(self).rediscoveries());
                        assert(has_contact(cs, node));
                        assert(false);
                    }
                    assert(rds_view(r) == mid.rediscoveries()[node]);
                }
                if r.retry_counter < (self.config.max_retry_rounds as u8) {
                    r.retry_counter = r.retry_counter + 1;
                    r.via_contacts = copy_ids(closest_to_node);
                    self.rediscovering.insert(node, r);
                    proof {
                        let o = old(self).rediscoveries()[node];
                        assert(self.rediscoveries() =~= old(self).rediscoveries().insert(
                            node,
                            (o.0, closest_to_node@, (o.2 + 1) as u8),
                        ));
                        assert(self.rediscoveries().dom() =~= old(self).rediscoveries().dom());
                        Self::lemma_wf_kept_retry(old(self), self, node);
                    }
                    match self.extract_eligible_via_contacts(contacts, node, 1) {
                        Some(v) => {
                            proof {
                                lemma_valid_prefix_valid(closest_to_node@, cs, scanned(closest_to_node@, cs, 1, 0));
                                let o = old(self).rediscoveries()[node];
                                assert(self.rediscoveries() =~= old(self).rediscoveries().insert(
                                    node,
                                    (o.0, closest_to_node@.skip(scanned(closest_to_node@, cs, 1, 0)), (o.2 + 1) as u8),
                                ));
                            }
                            v[v.len() - 1]
                        },
                        None => {
                            proof {
                                let o = old(self).rediscoveries()[node];
                                assert(self.rediscoveries() =~= old(self).rediscoveries().insert(
                                    node,
                                    (o.0, closest_to_node@.skip(scanned(closest_to_node@, cs, 1, 0)), (o.2 + 1) as u8),
                                ));
                            }
                            return None;
                        },
                    }
                } else {
                    self.rediscovering.insert(node, r);
                    proof {
                        assert(self.rediscovering@ =~= mid.rediscovering@);
                        assert(self.rediscoveries() =~= mid.rediscoveries());
                        Self::lemma_wf_kept(&mid, self);
                    }
                    if !self.rediscoveries.exists_node(&node) {
                        contacts[i].state = ContactState::Dead;
                    }
                    return None;
                }
            },
        };
        Some(self.request_for(root, contacts, node, via))
    }

    /// Another round keeps the retry counters within the last round.
    proof fn lemma_wf_kept_retry(a: &Self, b: &Self, node: NodeId)
        requires
            a.wf(),
            a.rediscoveries().contains_key(node),
            a.rediscoveries()[node].2 < a.config_view().max_retry_rounds as u8,
            b.timers() == a.timers(),
            b.nonces() == a.nonces(),
            b.config_view() == a.config_view(),
            b.rediscoveries().dom() == a.rediscoveries().dom(),
            forall|id: NodeId| #[trigger] b.rediscoveries().contains_key(id) && id != node ==> b.rediscoveries()[id]
                == a.rediscoveries()[id],
            b.rediscoveries()[node].2 == a.rediscoveries()[node].2 + 1,
        ensures
            b.wf(),
    {
        Self::lemma_consistent_kept(a, b);
        assert forall|id: NodeId| #[trigger] b.rediscoveries().contains_key(id) implies b.rediscoveries()[id].2
            <= b.config_view().max_retry_rounds as u8 by {
            assert(a.rediscoveries().contains_key(id));
        }
    }
}

/// The contacts picked from a list come from the list, in its order, each at most once as
/// often as it is listed.
proof fn lemma_valid_prefix_sub(list: Seq<NodeId>, cs: Seq<Contact>, k: int)
    requires
        0 <= k <= list.len(),
    ensures
        forall|j: int| 0 <= j < valid_prefix(list, cs, k).len() ==> list.take(k).contains(#[trigger] valid_prefix(list, cs, k)[j]),
        valid_prefix(list, cs, k).len() <= k,
    decreases k,
{
    if k > 0 {
        lemma_valid_prefix_sub(list, cs, k - 1);
        let a = valid_prefix(list, cs, k - 1);
        assert forall|j: int| 0 <= j < valid_prefix(list, cs, k).len() implies list.take(k).contains(
            #[trigger] valid_prefix(list, cs, k)[j],
        ) by {
            if j < a.len() {
                let t = list.take(k - 1);
                assert(t.contains(a[j]));
                let w = choose|w: int| 0 <= w < t.len() && t[w] == a[j];
                assert(list.take(k)[w] == a[j]);
            } else {
                assert(list.take(k)[k - 1] == list[k - 1]);
            }
        }
    }
}

/// How far the scan goes stays within the list.
proof fn lemma_scanned_bounds(list: Seq<NodeId>, cs: Seq<Contact>, n: nat, k: int)
    requires
        0 <= k <= list.len(),
    ensures
        k <= scanned(list, cs, n, k) <= list.len(),
    decreases list.len() - k,
{
    if k < list.len() {
        lemma_scanned_bounds(list, cs, n, k + 1);
    }
}

/// A rediscovery asks only valid contacts among those it lists, and never more than it
/// asks for at once.
pub proof fn law_rediscovery_asks_valid_listed_contacts(list: Seq<NodeId>, cs: Seq<Contact>, n: nat)
    ensures
        picked(list, cs, n).len() <= list.len(),
        n >= 1 ==> picked(list, cs, n).len() <= n,
        forall|j: int| 0 <= j < picked(list, cs, n).len() ==> valid_contact(cs, #[trigger] picked(list, cs, n)[j])
            && list.contains(picked(list, cs, n)[j]),
{
    let k = scanned(list, cs, n, 0);
    lemma_scanned_bounds(list, cs, n, 0);
    lemma_valid_prefix_valid(list, cs, k);
    lemma_valid_prefix_sub(list, cs, k);
    lemma_picked_at_most(list, cs, n, 0);
    assert forall|j: int| 0 <= j < picked(list, cs, n).len() implies valid_contact(cs, #[trigger] picked(list, cs, n)[j])
        && list.contains(picked(list, cs, n)[j]) by {
        let x = picked(list, cs, n)[j];
        let t = list.take(k);
        assert(t.contains(x));
        let w = choose|w: int| 0 <= w < t.len() && t[w] == x;
        assert(list[w] == x);
    }
}

/// Scanning stops once `n` valid contacts are found.
proof fn lemma_picked_at_most(list: Seq<NodeId>, cs: Seq<Contact>, n: nat, k: int)
    requires
        0 <= k <= list.len(),
        n >= 1 ==> valid_prefix(list, cs, k).len() < n || k == 0,
    ensures
        n >= 1 ==> valid_prefix(list, cs, scanned(list, cs, n, k)).len() <= n,
    decreases list.len() - k,
{
    if k < list.len() {
        if valid_prefix(list, cs, k + 1).len() != n {
            if n >= 1 {
                assert(valid_prefix(list, cs, k + 1).len() <= valid_prefix(list, cs, k).len() + 1);
                if k == 0 {
                    assert(valid_prefix(list, cs, 0).len() == 0);
                }
            }
            lemma_picked_at_most(list, cs, n, k + 1);
        }
    } else if n >= 1 && k == 0 {
        assert(valid_prefix(list, cs, 0).len() == 0);
    }
}

/// Every contact whose path runs over the failed link becomes invalid.
pub fn invalidate_contacts_containing_link(contacts: &mut Vec<Contact>, link: Link)
    ensures
        invalidated_over_link(old(contacts)@, final(contacts)@, link),
{
    let mut i: usize = 0;
    while i < contacts.len()
        invariant
            i <= contacts@.len(),
            contacts@.len() == old(contacts)@.len(),
            forall|j: int| i <= j < contacts@.len() ==> #[trigger] contacts@[j] == old(contacts)@[j],
            forall|j: int| 0 <= j < i ==> {
                &&& (#[trigger] contacts@[j]).id == old(contacts)@[j].id
                &&& contacts@[j].path == old(contacts)@[j].path
                &&& contacts@[j].state == if old(contacts)@[j].path is Some && uses_link(old(contacts)@[j].path->0@, link) {
                    ContactState::Invalid
                } else {
                    old(contacts)@[j].state
                }
            },
        decreases contacts@.len() - i,
    {
        let over = match &contacts[i].path {
            Some(p) => path_uses_link(p, link),
            None => false,
        };
        if over {
            contacts[i].state = ContactState::Invalid;
        }
        i = i + 1;
    }
}

/// The underlay neighbors reached through the id.
fn neighbors_through(uln_table: &HashMap<NodeId, UnderlayNeighborId>, ulnid: UnderlayNeighborId) -> (ids: Vec<NodeId>)
    ensures
        forall|n: NodeId| ids@.contains(n) <==> neighbors_via(uln_table@, ulnid).contains(n),
{
    let mut ids: Vec<NodeId> = Vec::new();
    for (id, via) in it: uln_table.iter()
        invariant
            forall|j: int| 0 <= j < ids.len() ==> neighbors_via(uln_table@, ulnid).contains(#[trigger] ids@[j]),
            forall|i: int| 0 <= i < it.index() ==> (#[trigger] it.seq()[i]).1 == ulnid ==> ids@.contains(*it.seq()[i].0),
    {
        if *via == ulnid {
            assert(uln_table@.contains_key(*id) && uln_table@[*id] == *via);
            ids.push(*id);
            assert(ids@[ids.len() - 1] == *id);
        }
    }
    assert(forall|n: NodeId| neighbors_via(uln_table@, ulnid).contains(n) ==> ids@.contains(n));
    ids
}

/// Whether the id is one of the ids.
fn contains_id(ids: &Vec<NodeId>, id: NodeId) -> (b: bool)
    ensures
        b == ids@.contains(id),
{
    let mut i: usize = 0;
    while i < ids.len()
        invariant
            i <= ids@.len(),
            forall|j: int| 0 <= j < i ==> ids@[j] != id,
        decreases ids@.len() - i,
    {
        if ids[i] == id {
            return true;
        }
        i = i + 1;
    }
    false
}

/// The underlay neighbor id went down (its interface failed): every contact whose path
/// starts with an underlay neighbor reached through it becomes invalid, and those
/// neighbors leave the underlay-neighbor table. Returns them; the runtime removes their
/// edges to this node from the vicinity graph.
pub fn invalidate_affected_contacts(
    contacts: &mut Vec<Contact>,
    uln_table: &mut HashMap<NodeId, UnderlayNeighborId>,
    ulnid: UnderlayNeighborId,
) -> (affected: Vec<NodeId>)
    ensures
        forall|n: NodeId| affected@.contains(n) <==> neighbors_via(old(uln_table)@, ulnid).contains(n),
        invalidated_through(old(contacts)@, final(contacts)@, neighbors_via(old(uln_table)@, ulnid)),
        final(uln_table)@ == old(uln_table)@.remove_keys(neighbors_via(old(uln_table)@, ulnid)),
{
    let affected = neighbors_through(uln_table, ulnid);
    let ghost firsts = neighbors_via(old(uln_table)@, ulnid);
    let mut i: usize = 0;
    while i < contacts.len()
        invariant
            i <= contacts@.len(),
            forall|n: NodeId| affected@.contains(n) <==> firsts.contains(n),
            contacts@.len() == old(contacts)@.len(),
            forall|j: int| i <= j < contacts@.len() ==> #[trigger] contacts@[j] == old(contacts)@[j],
            forall|j: int| 0 <= j < i ==> {
                &&& (#[trigger] contacts@[j]).id == old(contacts)@[j].id
                &&& contacts@[j].path == old(contacts)@[j].path
                &&& contacts@[j].state == if old(contacts)@[j].path is Some && old(contacts)@[j].path->0@.len() > 0
                    && firsts.contains(old(contacts)@[j].path->0@[0]) {
                    ContactState::Invalid
                } else {
                    old(contacts)@[j].state
                }
            },
        decreases contacts@.len() - i,
    {
        let hit = match &contacts[i].path {
            Some(p) => p.len() > 0 && contains_id(&affected, p[0]),
            None => false,
        };
        if hit {
            contacts[i].state = ContactState::Invalid;
        }
        i = i + 1;
    }
    let mut k: usize = 0;
    while k < affected.len()
        invariant
            k <= affected@.len(),
            forall|n: NodeId| affected@.contains(n) <==> firsts.contains(n),
            firsts == neighbors_via(old(uln_table)@, ulnid),
            uln_table@ == old(uln_table)@.remove_keys(affected@.take(k as int).to_set()),
        decreases affected@.len() - k,
    {
        uln_table.remove(&affected[k]);
        assert(affected@.take(k + 1).to_set() =~= affected@.take(k as int).to_set().insert(affected@[k as int]));
        assert(uln_table@ =~= old(uln_table)@.remove_keys(affected@.take(k + 1).to_set()));
        k = k + 1;
    }
    assert(affected@.take(affected@.len() as int) == affected@);
    assert(affected@.to_set() =~= firsts);
    affected
}

} // verus!
