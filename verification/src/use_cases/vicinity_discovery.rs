//! Vicinity discovery: discovers the underlay neighborhood (the *vicinity*) of the node by
//! exchanging ULNHello, ULNDiscReq/Rsp and QueryRouteReq/Rsp messages, and keeps it in sync.
//!
//! The use case does not hold the vicinity graph, the routing table or the underlay-neighbor
//! table: the runtime hands it what it reads of them and applies the changes it asks for.

use std::collections::HashMap;
use std::collections::HashSet;

use vstd::prelude::*;

use crate::domain::{
    copy_path, reversed_path,
    InterfaceId, Micros, NodeId, Nonce, ProtocolMessageKind, StateSeqNr, TimerId,
    UnderlayNeighborId, VICINITY_RADIUS,
};
use crate::random::random_u64;
use vstd::std_specs::iter::IteratorSpec;

verus! {

broadcast use {vstd::std_specs::hash::group_hash_axioms, vstd::seq_lib::group_seq_properties, vstd::set_lib::group_set_properties};

/// Configuration of [VicinityDiscovery]; durations in microseconds.
#[derive(Debug, Clone, Copy, PartialEq, Eq, Structural)]
pub struct VicinityDiscoveryConfig {
    /// Initial interval between ULNHello messages on an interface; it doubles after each
    /// hello up to [uln_max_interval](Self::uln_max_interval).
    pub uln_min_interval: Micros,
    /// Maximum interval between ULNHello messages.
    pub uln_max_interval: Micros,
    /// Initial wait time for a ULNDiscRsp; it doubles on each retry.
    pub uln_discovery_rsp_initial_max_wait_time: Micros,
    /// Maximum number of retries of a ULNDiscReq.
    pub uln_discovery_max_retries: usize,
    /// Initial wait time for a QueryRouteRsp; it doubles on each retry.
    pub query_route_discovery_rsp_initial_max_wait_time: Micros,
    /// Maximum number of retries of a QueryRouteReq.
    pub query_route_discovery_max_retries: usize,
    /// Number of low bits of the node ids that decide which node answers a ULNHello
    /// (at least 1).
    pub heuristic_calculation_bits: u8,
    /// A ULNHello is answered despite the heuristic when the next own hello on the
    /// interface is further away than this.
    pub heuristic_max_wait_time: Micros,
    /// Interval of the processing of nodes that need to be resynced.
    pub resync_timeout: Micros,
    /// Maximum number of nodes synced in parallel by the periodic resync.
    pub max_parallel_resync_count: usize,
}

impl Default for VicinityDiscoveryConfig {
    fn default() -> (c: Self)
        ensures
            c.uln_min_interval == 200_000,
            c.uln_max_interval == 30_000_000,
            c.uln_discovery_rsp_initial_max_wait_time == 250_000,
            c.uln_discovery_max_retries == 2,
            c.query_route_discovery_rsp_initial_max_wait_time == 3_000_000,
            c.query_route_discovery_max_retries == 2,
            c.heuristic_calculation_bits == 32,
            c.heuristic_max_wait_time == 1_000_000,
            c.resync_timeout == 100_000,
            c.max_parallel_resync_count == 10,
    {
        VicinityDiscoveryConfig {
            uln_min_interval: 200_000,
            uln_max_interval: 30_000_000,
            uln_discovery_rsp_initial_max_wait_time: 250_000,
            uln_discovery_max_retries: 2,
            query_route_discovery_rsp_initial_max_wait_time: 3_000_000,
            query_route_discovery_max_retries: 2,
            heuristic_calculation_bits: 32,
            heuristic_max_wait_time: 1_000_000,
            resync_timeout: 100_000,
            max_parallel_resync_count: 10,
        }
    }
}

/// Errors of [VicinityDiscovery].
#[derive(Debug, Clone, Copy, PartialEq, Eq, Structural)]
pub enum VDError {
    /// An underlay neighbor has no contact, or a path does not start at one.
    NeighborInconsistency,
    /// The use case was asked to act before it was started.
    InternalError,
}

impl VDError {
    /// A description of the error.
    pub fn message(&self) -> (m: String)
        ensures
            m@ == (match *self {
                VDError::NeighborInconsistency => "Contact contains invalid neighbor"@,
                VDError::InternalError => "Internal error"@,
            }),
    {
        match self {
            VDError::NeighborInconsistency => String::from_str("Contact contains invalid neighbor"),
            VDError::InternalError => String::from_str("Internal error"),
        }
    }
}

/// Periodic ULNHello state of an interface.
#[derive(Debug, Clone, Copy, PartialEq, Eq, Structural)]
pub struct InterfaceState {
    pub hello_interval: Micros,
}

/// A request that waits for its response.
#[derive(Debug, Clone, Copy, PartialEq, Eq, Structural)]
pub struct RequestState {
    /// Kind of the expected response.
    pub kind: ProtocolMessageKind,
    /// Number of timeouts so far.
    pub timeouts: usize,
    /// The current wait time.
    pub timeout: Micros,
    pub expected_nonce: Nonce,
}

/// What a timer of the use case is for.
#[derive(Debug, Clone, Copy, PartialEq, Eq, Structural)]
pub enum TimerHook {
    TimeoutULNDiscReq(NodeId),
    TimeoutQueryRouteReq(NodeId),
    SendInterfaceHello(InterfaceId),
}

/// State of [VicinityDiscovery].
///
/// The pending requests are kept per kind of the expected response: ULNDiscRsp and
/// QueryRouteRsp.
#[derive(Debug)]
pub enum VDState {
    Initialized,
    Running {
        resync_timer_id: TimerId,
        timer_hooks: HashMap<TimerId, TimerHook>,
        pending_uln_disc: HashMap<NodeId, RequestState>,
        pending_query_route: HashMap<NodeId, RequestState>,
        interfaces: HashMap<InterfaceId, InterfaceState>,
    },
    Error,
}

/// What the vicinity graph knows of a node.
#[derive(Debug, Clone, Copy, PartialEq, Eq, Structural)]
pub struct VicinityEntry {
    /// Sequence number of the node's neighborhood that this node has synced, if any.
    pub synched_ssn: Option<u64>,
    /// Newest sequence number of the node's neighborhood that this node has seen.
    pub observed_ssn: u64,
    /// The node is a direct underlay neighbor in the vicinity graph.
    pub is_direct_uln: bool,
}

/// The parts of the vicinity graph that vicinity discovery reads.
#[derive(Debug)]
pub struct VicinitySnapshot {
    /// The nodes of the graph, in the order in which they are synced.
    pub nodes: Vec<NodeId>,
    /// The entry of each node of the graph.
    pub entries: HashMap<NodeId, VicinityEntry>,
    /// A shortest path from this node to each reachable node of the vicinity, this node
    /// first.
    pub paths: HashMap<NodeId, Vec<NodeId>>,
}

/// What the runtime is asked to do.
#[derive(Debug)]
pub enum VDAction {
    /// Send a ULNDiscReq directly to the underlay neighbor; it carries the contacts of the
    /// nodes in `neighbors` (the underlay neighbors of this node).
    SendUlnDiscReq { destination: NodeId, via: UnderlayNeighborId, nonce: Nonce, neighbors: Vec<NodeId> },
    /// Answer a ULNDiscReq.
    SendUlnDiscRsp { destination: NodeId, via: UnderlayNeighborId, nonce: Nonce, neighbors: Vec<NodeId> },
    /// Send a QueryRouteReq along the path (this node first) through the underlay neighbor.
    SendQueryRouteReq { path: Vec<NodeId>, via: UnderlayNeighborId, nonce: Nonce },
    /// Answer a QueryRouteReq along the reversed source route.
    SendQueryRouteRsp { route: Vec<NodeId>, via: UnderlayNeighborId, nonce: Nonce, neighbors: Vec<NodeId> },
    /// Send a ULNHello on all interfaces.
    BroadcastHello,
    /// Send a ULNHello on the interface.
    MulticastHello(InterfaceId),
    /// Register a timer with the randomized duration and pass its id and the hook to
    /// [VicinityDiscovery::hook_timer].
    RegisterTimer(Micros, TimerHook),
    /// Register the next resync timer and pass its id to
    /// [VicinityDiscovery::set_next_resync_timeout].
    RegisterResyncTimer(Micros),
    /// Record a newer observed sequence number for the node, if it is in the graph.
    UpdateObservedSsn(NodeId, u64),
    /// Record a newer synced sequence number for the node, if it is in the graph.
    UpdateSynchedSsn(NodeId, u64),
    /// Insert the underlay neighbor into the graph (or update its synced sequence number)
    /// and mark it as seen now.
    RefreshUnderlayNeighbor(NodeId, u64),
    /// Insert the edge from `from` to `node`, whose sequence number is `ssn`.
    InsertEdge { node: NodeId, from: NodeId, ssn: u64 },
    /// Remove the edge between the two nodes.
    RemoveEdge(NodeId, NodeId),
    /// Remove the nodes that left the vicinity or became isolated.
    RetainVicinity,
    /// Remove the node from the graph.
    RemoveNode(NodeId),
}

/// The low `num_bits` bits of the node id, at most 32 of them.
pub open spec fn low_bits(id: NodeId, num_bits: u8) -> u32 {
    if num_bits == 0 {
        0
    } else if num_bits >= 32 {
        id as u32
    } else {
        (id as u32) & (0xffff_ffffu32 >> ((32 - num_bits) as u32))
    }
}

/// `a - b` modulo 2^32.
pub open spec fn wrapping_diff(a: u32, b: u32) -> u32 {
    if a >= b {
        (a - b) as u32
    } else {
        (a + 0x1_0000_0000 - b) as u32
    }
}

/// This node (`self_id`) answers the ULNHello of `other`: the low bits of `other` lie in
/// the half of the ring that follows those of `self_id`; on the border the smaller full id
/// answers.
pub open spec fn answers_hello(self_id: NodeId, other: NodeId, num_bits: u8) -> bool {
    let d = wrapping_diff(low_bits(other, num_bits), low_bits(self_id, num_bits));
    (d < 0x8000_0000 && d != 0) || ((d == 0 || d == 0x8000_0000) && self_id < other)
}

/// Whether this node should answer the ULNHello of `other`.
pub fn deterministic_heuristic(self_id: NodeId, other: NodeId, num_bits: u8) -> (answer: bool)
    ensures
        answer == answers_hello(self_id, other, num_bits),
{
    let own_bits = low_bits_of(self_id, num_bits);
    let other_bits = low_bits_of(other, num_bits);
    let delta: u32 = if other_bits >= own_bits {
        other_bits - own_bits
    } else {
        ((other_bits as u64 + 0x1_0000_0000u64) - own_bits as u64) as u32
    };
    if delta < 0x8000_0000 && delta != 0 {
        return true;
    }
    if (delta == 0 || delta == 0x8000_0000) && self_id < other {
        return true;
    }
    false
}

/// The low `num_bits` bits of the node id, at most 32 of them.
fn low_bits_of(id: NodeId, num_bits: u8) -> (b: u32)
    ensures
        b == low_bits(id, num_bits),
{
    if num_bits == 0 {
        0
    } else if num_bits >= 32 {
        id as u32
    } else {
        (id as u32) & (0xffff_ffffu32 >> ((32 - num_bits) as u32))
    }
}

/// Of two distinct nodes, exactly one answers the ULNHello of the other.
pub proof fn law_exactly_one_answers(a: NodeId, b: NodeId, num_bits: u8)
    requires
        a != b,
    ensures
        answers_hello(a, b, num_bits) != answers_hello(b, a, num_bits),
{
}

/// The state is the running state with these parts.
pub open spec fn running_with(
    s: VDState,
    resync: TimerId,
    hooks: Map<TimerId, TimerHook>,
    uln: Map<NodeId, RequestState>,
    qr: Map<NodeId, RequestState>,
    ifaces: Map<InterfaceId, InterfaceState>,
) -> bool {
    s matches VDState::Running {
        resync_timer_id,
        timer_hooks,
        pending_uln_disc,
        pending_query_route,
        interfaces,
    } && resync_timer_id == resync && timer_hooks@ == hooks && pending_uln_disc@ == uln
        && pending_query_route@ == qr && interfaces@ == ifaces
}

/// The resync timer of a running state.
pub open spec fn resync_of(s: VDState) -> TimerId {
    match s {
        VDState::Running { resync_timer_id, .. } => resync_timer_id,
        _ => 0,
    }
}

/// The timer hooks of a running state (empty otherwise).
pub open spec fn hooks_of(s: VDState) -> Map<TimerId, TimerHook> {
    match s {
        VDState::Running { timer_hooks, .. } => timer_hooks@,
        _ => Map::empty(),
    }
}

/// The pending ULNDiscReqs of a running state, by destination (empty otherwise).
pub open spec fn pending_uln_of(s: VDState) -> Map<NodeId, RequestState> {
    match s {
        VDState::Running { pending_uln_disc, .. } => pending_uln_disc@,
        _ => Map::empty(),
    }
}

/// The pending QueryRouteReqs of a running state, by destination (empty otherwise).
pub open spec fn pending_qr_of(s: VDState) -> Map<NodeId, RequestState> {
    match s {
        VDState::Running { pending_query_route, .. } => pending_query_route@,
        _ => Map::empty(),
    }
}

/// The interfaces with periodic hellos of a running state (empty otherwise).
pub open spec fn interfaces_of(s: VDState) -> Map<InterfaceId, InterfaceState> {
    match s {
        VDState::Running { interfaces, .. } => interfaces@,
        _ => Map::empty(),
    }
}

/// The contacts of all underlay neighbors are known, so that a ULNDisc message can carry
/// them.
pub open spec fn neighbors_known(uln_table: Map<NodeId, UnderlayNeighborId>, contacts: Set<NodeId>) -> bool {
    forall|n: NodeId| uln_table.contains_key(n) ==> contacts.contains(n)
}

/// The ids are exactly the underlay neighbors, each once.
pub open spec fn lists_neighbors(ids: Seq<NodeId>, uln_table: Map<NodeId, UnderlayNeighborId>) -> bool {
    ids.no_duplicates() && ids.to_set() == uln_table.dom()
}

/// Collects the underlay neighbors whose contacts a ULNDisc or QueryRoute message carries;
/// fails if one of them has no contact.
pub fn collect_underlay_neighbors(
    uln_table: &HashMap<NodeId, UnderlayNeighborId>,
    contacts: &HashSet<NodeId>,
) -> (res: Result<Vec<NodeId>, VDError>)
    ensures
        res is Ok <==> neighbors_known(uln_table@, contacts@),
        res matches Ok(ids) ==> lists_neighbors(ids@, uln_table@),
        res matches Err(e) ==> e == VDError::NeighborInconsistency,
{
    let mut ids: Vec<NodeId> = Vec::new();
    for k in it: uln_table.keys()
        invariant
            it.seq() == uln_table.keys().remaining(),
            ids@.len() == it.index(),
            forall|i: int| 0 <= i < it.index() ==> ids@[i] == *(#[trigger] it.seq()[i]),
            forall|i: int| 0 <= i < ids@.len() ==> contacts@.contains(#[trigger] ids@[i]),
    {
        proof {
            assert(it.seq().unref().to_set().contains(*k)) by {
                assert(it.seq().unref()[it.index() as int] == *k);
            }
        }
        if !contacts.contains(k) {
            assert(!neighbors_known(uln_table@, contacts@));
            return Err(VDError::NeighborInconsistency);
        }
        ids.push(*k);
    }
    proof {
        let sq = uln_table.keys().remaining();
        assert(sq.unref().to_set() == uln_table@.dom());
        assert(ids@ =~= sq.unref());
        assert forall|i: int, j: int| 0 <= i < ids@.len() && 0 <= j < ids@.len() && i != j implies ids@[i] != ids@[j] by {
            assert(sq[i] != sq[j]);
        }
    }
    Ok(ids)
}

/// A contact that a ULNDisc message reports: a neighbor of its sender.
#[derive(Debug, Clone, Copy, PartialEq, Eq, Structural)]
pub struct ReportedContact {
    pub id: NodeId,
    /// Number of hops of the sender's path to the contact.
    pub path_len: usize,
    /// Sequence number that the contact announced.
    pub ssn: u64,
}

/// The running state is `s` with the pending ULNDiscReqs replaced.
pub open spec fn with_pending_uln(s: VDState, f: VDState, uln: Map<NodeId, RequestState>) -> bool {
    running_with(f, resync_of(s), hooks_of(s), uln, pending_qr_of(s), interfaces_of(s))
}

/// The running state is `s` with the pending QueryRouteReqs replaced.
pub open spec fn with_pending_qr(s: VDState, f: VDState, qr: Map<NodeId, RequestState>) -> bool {
    running_with(f, resync_of(s), hooks_of(s), pending_uln_of(s), qr, interfaces_of(s))
}

/// A pending request after its response with the nonce arrived: it is complete if the
/// nonce is the expected one.
pub open spec fn finalized(m: Map<NodeId, RequestState>, source: NodeId, nonce: Option<Nonce>) -> Map<NodeId, RequestState> {
    if m.contains_key(source) && nonce == Some(m[source].expected_nonce) {
        m.remove(source)
    } else {
        m
    }
}

/// The action sends a ULNDiscReq with the nonce to the destination, carrying the
/// underlay neighbors.
pub open spec fn sends_uln_disc_req(
    a: VDAction,
    destination: NodeId,
    via: UnderlayNeighborId,
    nonce: Nonce,
    uln_table: Map<NodeId, UnderlayNeighborId>,
) -> bool {
    a matches VDAction::SendUlnDiscReq { destination: d, via: v, nonce: n, neighbors } && d == destination
        && v == via && n == nonce && lists_neighbors(neighbors@, uln_table)
}

/// The nonce that an action carries (0 for actions without one).
pub open spec fn action_nonce(a: VDAction) -> Nonce {
    match a {
        VDAction::SendUlnDiscReq { nonce, .. } => nonce,
        VDAction::SendUlnDiscRsp { nonce, .. } => nonce,
        VDAction::SendQueryRouteReq { nonce, .. } => nonce,
        VDAction::SendQueryRouteRsp { nonce, .. } => nonce,
        _ => 0,
    }
}

/// A fresh request that waits for its first response.
pub open spec fn fresh_request(kind: ProtocolMessageKind, timeout: Micros, nonce: Nonce) -> RequestState {
    RequestState { kind, timeouts: 0, timeout, expected_nonce: nonce }
}

/// The ULNHello comes from a node that is not yet a direct underlay neighbor in the
/// vicinity graph.
pub open spec fn hello_from_new_neighbor(ssn: StateSeqNr, entry: Option<VicinityEntry>) -> bool {
    ssn is Value && match entry {
        Some(e) => !e.is_direct_uln,
        None => true,
    }
}

/// The vicinity-graph updates of a ULNHello: its sequence number, if the sender is known.
pub open spec fn hello_updates(source: NodeId, ssn: StateSeqNr, entry: Option<VicinityEntry>) -> Seq<VDAction> {
    match (ssn, entry) {
        (StateSeqNr::Value(v), Some(_)) => seq![VDAction::UpdateObservedSsn(source, v)],
        _ => seq![],
    }
}

/// A running use case answers the ULNHello (received on the interface) with a ULNDiscReq:
/// no request to the sender is pending unless it is a new neighbor, the heuristic lets this
/// node answer or its own next hello is too far away, and the hello brings news.
pub open spec fn hello_triggers_disc(
    config: VicinityDiscoveryConfig,
    root: NodeId,
    source: NodeId,
    ssn: StateSeqNr,
    interface: InterfaceId,
    entry: Option<VicinityEntry>,
    pending: Map<NodeId, RequestState>,
    ifaces: Map<InterfaceId, InterfaceState>,
) -> bool {
    let new_neighbor = hello_from_new_neighbor(ssn, entry);
    &&& new_neighbor || !pending.contains_key(source)
    &&& answers_hello(root, source, config.heuristic_calculation_bits) || !ifaces.contains_key(interface)
        || ifaces[interface].hello_interval > config.heuristic_max_wait_time
    &&& match ssn {
        StateSeqNr::Value(observed) => (entry is Some && !new_neighbor) ==> match entry.unwrap().synched_ssn {
            Some(synched) => synched < observed,
            None => true,
        },
        _ => true,
    }
}

/// Reports the contact as a neighbor of the sender (one hop from it, not this node).
pub open spec fn reports_neighbor(c: ReportedContact, root: NodeId) -> bool {
    c.path_len == 1 && c.id != root
}

/// The edges that a ULNDisc message inserts, in the order of its contacts.
pub open spec fn edge_inserts(reported: Seq<ReportedContact>, root: NodeId, source: NodeId) -> Seq<VDAction>
    decreases reported.len(),
{
    if reported.len() == 0 {
        seq![]
    } else {
        let c = reported.last();
        edge_inserts(reported.drop_last(), root, source) + if reports_neighbor(c, root) {
            seq![VDAction::InsertEdge { node: c.id, from: source, ssn: c.ssn }]
        } else {
            seq![]
        }
    }
}

/// The former neighbors of the sender that its ULNDisc message no longer reports.
pub open spec fn lost_neighbors(old: Set<NodeId>, reported: Seq<ReportedContact>, root: NodeId) -> Set<NodeId> {
    old.filter(|n: NodeId| n != root && !(exists|i: int| 0 <= i < reported.len() && #[trigger] reported[i].id == n && reported[i].path_len == 1))
}

/// The node whose edge to the sender a removing action removes (0 for other actions).
pub open spec fn removed_neighbor(a: VDAction) -> NodeId {
    match a {
        VDAction::RemoveEdge(_, n) => n,
        _ => 0,
    }
}

/// The actions remove exactly the edges from the sender to the nodes of `lost`, each once.
pub open spec fn removes_edges(actions: Seq<VDAction>, source: NodeId, lost: Set<NodeId>) -> bool {
    &&& forall|i: int| 0 <= i < actions.len() ==> (#[trigger] actions[i] matches VDAction::RemoveEdge(s, _) && s == source)
    &&& actions.map_values(|a: VDAction| removed_neighbor(a)).no_duplicates()
    &&& actions.map_values(|a: VDAction| removed_neighbor(a)).to_set() == lost
}

/// The vicinity-graph changes of a ULNDiscReq or ULNDiscRsp from `source` that came over
/// `route_len` hops with the sequence number: nothing unless it came directly from an
/// underlay neighbor with a valid number; then the sender is refreshed, the edges to its
/// reported neighbors inserted, those to its lost neighbors removed, and, if any was lost,
/// the nodes outside the vicinity removed.
pub open spec fn processes_uln_disc(
    actions: Seq<VDAction>,
    root: NodeId,
    source: NodeId,
    route_len: usize,
    ssn: StateSeqNr,
    reported: Seq<ReportedContact>,
    old_neighbors: Set<NodeId>,
) -> bool {
    if route_len != 2 || !(ssn is Value) {
        actions.len() == 0
    } else {
        let inserts = edge_inserts(reported, root, source);
        let lost = lost_neighbors(old_neighbors, reported, root);
        let k: int = 1 + inserts.len() as int;
        let r = if lost.len() > 0 { 1int } else { 0int };
        &&& actions.len() == k + lost.len() + r
        &&& actions[0] == VDAction::RefreshUnderlayNeighbor(source, ssn->0)
        &&& actions.subrange(1, k) == inserts
        &&& removes_edges(actions.subrange(k, k + lost.len() as int), source, lost)
        &&& lost.len() > 0 ==> actions.last() == VDAction::RetainVicinity
    }
}

/// The node is reported as a one-hop neighbor of the sender.
fn reported_one_hop(reported: &Vec<ReportedContact>, n: NodeId) -> (b: bool)
    ensures
        b == exists|i: int| 0 <= i < reported@.len() && #[trigger] reported@[i].id == n && reported@[i].path_len == 1,
{
    let mut i: usize = 0;
    while i < reported.len()
        invariant
            i <= reported.len(),
            forall|j: int| 0 <= j < i ==> !(#[trigger] reported@[j].id == n && reported@[j].path_len == 1),
        decreases reported.len() - i,
    {
        if reported[i].id == n && reported[i].path_len == 1 {
            return true;
        }
        i = i + 1;
    }
    false
}

/// The vicinity-graph changes of a ULNDiscReq or ULNDiscRsp from `source` that came over
/// `route_len` hops with the sequence number, reporting the contacts; `old_neighbors` are
/// the neighbors of the sender in the vicinity graph before.
pub fn process_uln_disc(
    root: NodeId,
    source: NodeId,
    route_len: usize,
    ssn: StateSeqNr,
    reported: &Vec<ReportedContact>,
    old_neighbors: &HashSet<NodeId>,
) -> (actions: Vec<VDAction>)
    ensures
        processes_uln_disc(actions@, root, source, route_len, ssn, reported@, old_neighbors@),
{
    let mut actions: Vec<VDAction> = Vec::new();
    if route_len != 2 {
        return actions;
    }
    let synched = match ssn {
        StateSeqNr::Value(v) => v,
        _ => return actions,
    };
    actions.push(VDAction::RefreshUnderlayNeighbor(source, synched));
    let mut i: usize = 0;
    while i < reported.len()
        invariant
            i <= reported.len(),
            actions@ == seq![VDAction::RefreshUnderlayNeighbor(source, synched)] + edge_inserts(reported@.take(i as int), root, source),
        decreases reported.len() - i,
    {
        let c = reported[i];
        proof {
            assert(reported@.take(i + 1).drop_last() == reported@.take(i as int));
            assert(reported@.take(i + 1).last() == c);
        }
        if c.path_len == 1 && c.id != root {
            actions.push(VDAction::InsertEdge { node: c.id, from: source, ssn: c.ssn });
        }
        i = i + 1;
    }
    assert(reported@.take(reported@.len() as int) == reported@);
    let k: usize = actions.len();
    let ghost prefix = actions@;
    let ghost lost = lost_neighbors(old_neighbors@, reported@, root);
    let ghost mut idx: Seq<int> = seq![];
    for n in it: old_neighbors.iter()
        invariant
            it.seq() == old_neighbors.iter().remaining(),
            k == prefix.len(),
            k <= actions@.len(),
            actions@.subrange(0, k as int) == prefix,
            idx.len() == actions@.len() - k,
            lost == lost_neighbors(old_neighbors@, reported@, root),
            forall|j: int| 0 <= j < idx.len() ==> 0 <= #[trigger] idx[j] < it.index() && actions@[k + j] == VDAction::RemoveEdge(source, *it.seq()[idx[j]]) && lost.contains(*it.seq()[idx[j]]),
            forall|j1: int, j2: int| 0 <= j1 < j2 < idx.len() ==> idx[j1] < idx[j2],
            forall|i: int| 0 <= i < it.index() ==> lost.contains(*#[trigger] it.seq()[i]) ==> exists|j: int| 0 <= j < idx.len() && idx[j] == i,
    {
        proof {
            assert(it.seq().unref()[it.index() as int] == *n);
            assert(it.seq().unref().to_set().contains(*n));
        }
        let ghost old_idx = idx;
        if *n != root && !reported_one_hop(reported, *n) {
            actions.push(VDAction::RemoveEdge(source, *n));
            proof {
                assert(lost.contains(*n));
                idx = idx.push(it.index() as int);
            }
        }
        proof {
            assert forall|i: int| 0 <= i <= it.index() && lost.contains(*#[trigger] it.seq()[i]) implies exists|j: int| 0 <= j < idx.len() && idx[j] == i by {
                if i < it.index() {
                    let j = choose|j: int| 0 <= j < old_idx.len() && old_idx[j] == i;
                    assert(idx[j] == i);
                } else {
                    assert(idx[idx.len() - 1] == i);
                }
            }
        }
    }
    let m: usize = actions.len();
    proof {
        let sq = old_neighbors.iter().remaining();
        assert(sq.unref().to_set() == old_neighbors@);
        let tail = actions@.subrange(k as int, m as int);
        let ids = tail.map_values(|a: VDAction| removed_neighbor(a));
        assert forall|j: int| 0 <= j < ids.len() implies ids[j] == *sq[idx[j]] by {
            assert(tail[j] == actions@[k + j]);
        }
        assert forall|j1: int, j2: int| 0 <= j1 < ids.len() && 0 <= j2 < ids.len() && j1 != j2 implies ids[j1] != ids[j2] by {
            assert(idx[j1] != idx[j2]);
            assert(sq[idx[j1]] != sq[idx[j2]]);
        }
        assert forall|x: NodeId| ids.to_set().contains(x) <==> lost.contains(x) by {
            if ids.to_set().contains(x) {
                let j = choose|j: int| 0 <= j < ids.len() && ids[j] == x;
                assert(ids[j] == *sq[idx[j]]);
            }
            if lost.contains(x) {
                assert(old_neighbors@.contains(x));
                assert(sq.unref().to_set().contains(x));
                let i = choose|i: int| 0 <= i < sq.unref().len() && sq.unref()[i] == x;
                assert(*sq[i] == x);
                let j = choose|j: int| 0 <= j < idx.len() && idx[j] == i;
                assert(ids[j] == x);
            }
        }
        assert(ids.to_set() =~= lost);
        ids.unique_seq_to_set();
        assert forall|j: int| 0 <= j < tail.len() implies (#[trigger] tail[j] matches VDAction::RemoveEdge(s, _) && s == source) by {
            assert(tail[j] == actions@[k + j]);
            assert(0 <= idx[j] < sq.len());
            assert(actions@[k + j] == VDAction::RemoveEdge(source, *sq[idx[j]]));
        }
        assert(prefix.subrange(1, k as int) =~= edge_inserts(reported@, root, source));
        assert(actions@.subrange(1, k as int) =~= prefix.subrange(1, k as int));
    }
    let ghost before = actions@;
    if m > k {
        actions.push(VDAction::RetainVicinity);
    }
    proof {
        let tail = before.subrange(k as int, m as int);
        let ids = tail.map_values(|a: VDAction| removed_neighbor(a));
        assert(ids.len() == lost.len());
        assert(actions@.subrange(k as int, m as int) =~= tail);
        assert(actions@.subrange(1, k as int) =~= before.subrange(1, k as int));
        assert(actions@[0] == before[0]);
        assert(before[0] == prefix[0]);
    }
    actions
}

/// The vicinity-graph update of a QueryRoute message from `source` that came over
/// `route_len` hops: a node on the border of the vicinity announces its sequence number.
pub open spec fn border_ssn(route_len: usize, ssn: StateSeqNr) -> Option<u64> {
    if route_len == VICINITY_RADIUS && ssn is Value {
        Some(ssn->0)
    } else {
        None
    }
}

/// The actions from index `k` on start a ULNDiscReq to the destination: the request with
/// a nonce, then its timeout timer; the state records the request as pending.
pub open spec fn starts_uln_disc(
    s: VDState,
    f: VDState,
    actions: Seq<VDAction>,
    k: int,
    destination: NodeId,
    via: UnderlayNeighborId,
    uln_table: Map<NodeId, UnderlayNeighborId>,
    wait: Micros,
) -> bool {
    let n = action_nonce(actions[k]);
    &&& actions.len() >= k + 2
    &&& sends_uln_disc_req(actions[k], destination, via, n, uln_table)
    &&& actions[k + 1] == VDAction::RegisterTimer(wait, TimerHook::TimeoutULNDiscReq(destination))
    &&& with_pending_uln(s, f, pending_uln_of(s).insert(destination, fresh_request(ProtocolMessageKind::ULNDiscRsp, wait, n)))
}

/// Twice the duration, saturating at the largest one.
pub open spec fn doubled(t: Micros) -> Micros {
    if t * 2 > u64::MAX {
        u64::MAX
    } else {
        (t * 2) as u64
    }
}

/// The request after one more timeout: the wait time doubles.
pub open spec fn retried(r: RequestState) -> RequestState {
    RequestState { timeouts: (r.timeouts + 1) as usize, timeout: doubled(r.timeout), ..r }
}

/// The paths of the snapshot lead from this node to their node within the vicinity, over
/// at least one hop.
pub open spec fn paths_wf(paths: Map<NodeId, Vec<NodeId>>, root: NodeId) -> bool {
    forall|n: NodeId| #[trigger] paths.contains_key(n) ==> {
        let p = paths[n]@;
        &&& 2 <= p.len() <= VICINITY_RADIUS
        &&& p[0] == root
        &&& p.last() == n
    }
}

/// The action sends a QueryRouteReq with the nonce along the path, through the underlay
/// neighbor that is its second node.
pub open spec fn sends_query_route_req(
    a: VDAction,
    path: Seq<NodeId>,
    nonce: Nonce,
    uln_table: Map<NodeId, UnderlayNeighborId>,
) -> bool {
    a matches VDAction::SendQueryRouteReq { path: p, via: v, nonce: n } && p@ == path && v == uln_table[path[1]]
        && n == nonce
}

/// The state after a timer without a special meaning fired: the running state `s` without
/// the timer's hook and with the given pending requests and interfaces.
pub open spec fn after_timer(
    s: VDState,
    f: VDState,
    timer_id: TimerId,
    uln: Map<NodeId, RequestState>,
    qr: Map<NodeId, RequestState>,
    ifaces: Map<InterfaceId, InterfaceState>,
) -> bool {
    running_with(f, resync_of(s), hooks_of(s).remove(timer_id), uln, qr, ifaces)
}

/// The outcome of the timeout of a ULNDiscReq to `dest` in the running state `s`: nothing
/// if it was answered; after the last retry the request is dropped and the node removed
/// from the vicinity graph; if the node is no underlay neighbor any more the request is
/// dropped; else it is sent again with the same nonce and a doubled wait time.
pub open spec fn uln_disc_timed_out(
    config: VicinityDiscoveryConfig,
    s: VDState,
    f: VDState,
    timer_id: TimerId,
    dest: NodeId,
    uln_table: Map<NodeId, UnderlayNeighborId>,
    known: bool,
    out: (Seq<VDAction>, Result<(), VDError>),
) -> bool {
    let p = pending_uln_of(s);
    let qr = pending_qr_of(s);
    let ifs = interfaces_of(s);
    if !p.contains_key(dest) {
        out.0.len() == 0 && out.1 is Ok && after_timer(s, f, timer_id, p, qr, ifs)
    } else if p[dest].timeouts >= config.uln_discovery_max_retries {
        out.0 == seq![VDAction::RemoveNode(dest)] && out.1 is Ok && after_timer(s, f, timer_id, p.remove(dest), qr, ifs)
    } else if !uln_table.contains_key(dest) {
        out.0.len() == 0 && out.1 is Ok && after_timer(s, f, timer_id, p.remove(dest), qr, ifs)
    } else if !known {
        out.0.len() == 0 && out.1 == Err::<(), VDError>(VDError::NeighborInconsistency) && after_timer(s, f, timer_id, p, qr, ifs)
    } else {
        &&& out.1 is Ok
        &&& out.0.len() == 2
        &&& sends_uln_disc_req(out.0[0], dest, uln_table[dest], p[dest].expected_nonce, uln_table)
        &&& out.0[1] == VDAction::RegisterTimer(doubled(p[dest].timeout), TimerHook::TimeoutULNDiscReq(dest))
        &&& after_timer(s, f, timer_id, p.insert(dest, retried(p[dest])), qr, ifs)
    }
}

/// The outcome of the timeout of a QueryRouteReq to `dest` in the running state `s`:
/// nothing if it was answered; after the last retry, if the node is unreachable in the
/// vicinity graph or became an underlay neighbor, the request is dropped; else it is sent
/// again along the current path with the same nonce and a doubled wait time (failing if the
/// path does not start at an underlay neighbor).
pub open spec fn query_route_timed_out(
    config: VicinityDiscoveryConfig,
    s: VDState,
    f: VDState,
    timer_id: TimerId,
    dest: NodeId,
    uln_table: Map<NodeId, UnderlayNeighborId>,
    paths: Map<NodeId, Vec<NodeId>>,
    out: (Seq<VDAction>, Result<(), VDError>),
) -> bool {
    let p = pending_uln_of(s);
    let qr = pending_qr_of(s);
    let ifs = interfaces_of(s);
    if !qr.contains_key(dest) {
        out.0.len() == 0 && out.1 is Ok && after_timer(s, f, timer_id, p, qr, ifs)
    } else if qr[dest].timeouts >= config.query_route_discovery_max_retries || !paths.contains_key(dest)
        || paths[dest]@.len() == 2 {
        out.0.len() == 0 && out.1 is Ok && after_timer(s, f, timer_id, p, qr.remove(dest), ifs)
    } else if !uln_table.contains_key(paths[dest]@[1]) {
        out.0.len() == 0 && out.1 == Err::<(), VDError>(VDError::NeighborInconsistency) && after_timer(s, f, timer_id, p, qr, ifs)
    } else {
        &&& out.1 is Ok
        &&& out.0.len() == 2
        &&& sends_query_route_req(out.0[0], paths[dest]@, qr[dest].expected_nonce, uln_table)
        &&& out.0[1] == VDAction::RegisterTimer(doubled(qr[dest].timeout), TimerHook::TimeoutQueryRouteReq(dest))
        &&& after_timer(s, f, timer_id, p, qr.insert(dest, retried(qr[dest])), ifs)
    }
}

/// The outcome of the hello timer of the interface in the running state `s`: nothing if
/// the interface went down; else a ULNHello and the next timer, after a doubled interval
/// of at most the maximal one.
pub open spec fn hello_timer_fired(
    config: VicinityDiscoveryConfig,
    s: VDState,
    f: VDState,
    timer_id: TimerId,
    interface: InterfaceId,
    out: (Seq<VDAction>, Result<(), VDError>),
) -> bool {
    let ifs = interfaces_of(s);
    if !ifs.contains_key(interface) {
        out.0.len() == 0 && out.1 is Ok && after_timer(s, f, timer_id, pending_uln_of(s), pending_qr_of(s), ifs)
    } else {
        let d = doubled(ifs[interface].hello_interval);
        let next = if config.uln_max_interval < d { config.uln_max_interval } else { d };
        &&& out.1 is Ok
        &&& out.0 == seq![
            VDAction::MulticastHello(interface),
            VDAction::RegisterTimer(next, TimerHook::SendInterfaceHello(interface)),
        ]
        &&& after_timer(s, f, timer_id, pending_uln_of(s), pending_qr_of(s), ifs.insert(interface, InterfaceState { hello_interval: next }))
    }
}

/// The outcome of a timer other than the resync timer in the running state `s`: a timer
/// without a hook changes nothing; otherwise its hook is removed and handled.
pub open spec fn hook_timer_fired(
    config: VicinityDiscoveryConfig,
    s: VDState,
    f: VDState,
    timer_id: TimerId,
    uln_table: Map<NodeId, UnderlayNeighborId>,
    paths: Map<NodeId, Vec<NodeId>>,
    known: bool,
    out: (Seq<VDAction>, Result<(), VDError>),
) -> bool {
    if !hooks_of(s).contains_key(timer_id) {
        out.0.len() == 0 && out.1 is Ok && after_timer(s, f, timer_id, pending_uln_of(s), pending_qr_of(s), interfaces_of(s))
    } else {
        match hooks_of(s)[timer_id] {
            TimerHook::TimeoutULNDiscReq(dest) => uln_disc_timed_out(config, s, f, timer_id, dest, uln_table, known, out),
            TimerHook::TimeoutQueryRouteReq(dest) => query_route_timed_out(config, s, f, timer_id, dest, uln_table, paths, out),
            TimerHook::SendInterfaceHello(interface) => hello_timer_fired(config, s, f, timer_id, interface, out),
        }
    }
}

/// A sync that the periodic resync starts.
#[derive(Debug, Clone, Copy, PartialEq, Eq, Structural)]
pub enum SyncTarget {
    /// A ULNDiscReq to the underlay neighbor.
    UlnDisc(NodeId),
    /// A QueryRouteReq to the node two hops away.
    QueryRoute(NodeId),
}

/// What the periodic resync does with a candidate node.
#[derive(Debug, Clone, Copy, PartialEq, Eq, Structural)]
pub enum SyncDecision {
    /// Nothing: the node is in sync, unknown, already being synced, or an underlay
    /// neighbor known only from the vicinity graph.
    Skip,
    /// The node cannot be reached in the vicinity graph any more.
    Unreachable,
    /// The request cannot be built: an underlay neighbor has no contact, or the path does
    /// not start at an underlay neighbor.
    Fail,
    /// Start a ULNDiscReq.
    StartUlnDisc,
    /// Start a QueryRouteReq.
    StartQueryRoute,
}

/// The entries of the vicinity graph never have synced a newer sequence number than they
/// observed.
pub open spec fn entries_wf(entries: Map<NodeId, VicinityEntry>) -> bool {
    forall|n: NodeId| #[trigger] entries.contains_key(n) ==> match entries[n].synched_ssn {
        Some(synched) => synched <= entries[n].observed_ssn,
        None => true,
    }
}

/// The node has synced what it observed.
pub open spec fn in_sync(e: VicinityEntry) -> bool {
    e.synched_ssn == Some(e.observed_ssn)
}

/// What the resync does with the candidate, given the nodes with pending requests:
/// underlay neighbors are synced by ULNDiscReq, the other nodes of the vicinity graph by
/// QueryRouteReq along their path; nodes in sync or with a pending request are skipped.
pub open spec fn sync_decision(
    cand: NodeId,
    uln_table: Map<NodeId, UnderlayNeighborId>,
    known: bool,
    entries: Map<NodeId, VicinityEntry>,
    paths: Map<NodeId, Vec<NodeId>>,
    uln: Set<NodeId>,
    qr: Set<NodeId>,
) -> SyncDecision {
    if uln_table.contains_key(cand) {
        if !entries.contains_key(cand) || in_sync(entries[cand]) || uln.contains(cand) {
            SyncDecision::Skip
        } else if !known {
            SyncDecision::Fail
        } else {
            SyncDecision::StartUlnDisc
        }
    } else if in_sync(entries[cand]) {
        SyncDecision::Skip
    } else if !paths.contains_key(cand) {
        SyncDecision::Unreachable
    } else if paths[cand]@.len() == 2 || qr.contains(cand) {
        SyncDecision::Skip
    } else if !uln_table.contains_key(paths[cand]@[1]) {
        SyncDecision::Fail
    } else {
        SyncDecision::StartQueryRoute
    }
}

/// Progress of the resync: nodes with pending ULNDiscReqs and QueryRouteReqs, remaining
/// capacity, whether an unreachable node was found, whether it failed, the syncs started.
pub type SyncProgress = (Set<NodeId>, Set<NodeId>, int, bool, bool, Seq<SyncTarget>);

/// The resync over the candidates, in order: it stops when the capacity is used up or a
/// request cannot be built.
pub open spec fn sync_fold(
    cands: Seq<NodeId>,
    uln_table: Map<NodeId, UnderlayNeighborId>,
    known: bool,
    entries: Map<NodeId, VicinityEntry>,
    paths: Map<NodeId, Vec<NodeId>>,
    start: SyncProgress,
) -> SyncProgress
    decreases cands.len(),
{
    if cands.len() == 0 {
        start
    } else {
        let p = sync_fold(cands.drop_last(), uln_table, known, entries, paths, start);
        if p.4 || p.2 <= 0 {
            p
        } else {
            let c = cands.last();
            match sync_decision(c, uln_table, known, entries, paths, p.0, p.1) {
                SyncDecision::Skip => p,
                SyncDecision::Unreachable => (p.0, p.1, p.2, true, p.4, p.5),
                SyncDecision::Fail => (p.0, p.1, p.2, p.3, true, p.5),
                SyncDecision::StartUlnDisc => (p.0.insert(c), p.1, p.2 - 1, p.3, p.4, p.5.push(SyncTarget::UlnDisc(c))),
                SyncDecision::StartQueryRoute => (p.0, p.1.insert(c), p.2 - 1, p.3, p.4, p.5.push(SyncTarget::QueryRoute(c))),
            }
        }
    }
}

/// The actions are the requests of the started syncs, two per sync: the request (with its
/// nonce) and its timeout timer.
pub open spec fn realizes_syncs(
    actions: Seq<VDAction>,
    targets: Seq<SyncTarget>,
    config: VicinityDiscoveryConfig,
    uln_table: Map<NodeId, UnderlayNeighborId>,
    paths: Map<NodeId, Vec<NodeId>>,
) -> bool {
    forall|i: int| 0 <= i < targets.len() ==> match #[trigger] targets[i] {
        SyncTarget::UlnDisc(c) => sends_uln_disc_req(actions[2 * i], c, uln_table[c], action_nonce(actions[2 * i]), uln_table)
            && actions[2 * i + 1] == VDAction::RegisterTimer(
            config.uln_discovery_rsp_initial_max_wait_time,
            TimerHook::TimeoutULNDiscReq(c),
        ),
        SyncTarget::QueryRoute(c) => sends_query_route_req(actions[2 * i], paths[c]@, action_nonce(actions[2 * i]), uln_table)
            && actions[2 * i + 1] == VDAction::RegisterTimer(
            config.query_route_discovery_rsp_initial_max_wait_time,
            TimerHook::TimeoutQueryRouteReq(c),
        ),
    }
}

/// The pending ULNDiscReqs after the resync: the former ones and one for each started
/// ULNDiscReq, with the nonce of its request.
pub open spec fn uln_pending_after(
    before: Map<NodeId, RequestState>,
    after: Map<NodeId, RequestState>,
    actions: Seq<VDAction>,
    targets: Seq<SyncTarget>,
    wait: Micros,
) -> bool {
    &&& forall|c: NodeId| #[trigger] after.contains_key(c) <==> before.contains_key(c) || targets.contains(SyncTarget::UlnDisc(c))
    &&& forall|c: NodeId| #[trigger] before.contains_key(c) ==> after[c] == before[c]
    &&& forall|i: int| 0 <= i < targets.len() ==> (#[trigger] targets[i] matches SyncTarget::UlnDisc(c)
        ==> after[c] == fresh_request(ProtocolMessageKind::ULNDiscRsp, wait, action_nonce(actions[2 * i])))
}

/// The pending QueryRouteReqs after the resync: the former ones and one for each started
/// QueryRouteReq, with the nonce of its request.
pub open spec fn qr_pending_after(
    before: Map<NodeId, RequestState>,
    after: Map<NodeId, RequestState>,
    actions: Seq<VDAction>,
    targets: Seq<SyncTarget>,
    wait: Micros,
) -> bool {
    &&& forall|c: NodeId| #[trigger] after.contains_key(c) <==> before.contains_key(c) || targets.contains(SyncTarget::QueryRoute(c))
    &&& forall|c: NodeId| #[trigger] before.contains_key(c) ==> after[c] == before[c]
    &&& forall|i: int| 0 <= i < targets.len() ==> (#[trigger] targets[i] matches SyncTarget::QueryRoute(c)
        ==> after[c] == fresh_request(ProtocolMessageKind::QueryRouteRsp, wait, action_nonce(actions[2 * i])))
}

/// Number of further syncs the resync may start: the configured maximum less the pending
/// requests.
pub open spec fn sync_capacity(config: VicinityDiscoveryConfig, s: VDState) -> int {
    let pending = pending_uln_of(s).len() + pending_qr_of(s).len();
    if config.max_parallel_resync_count > pending {
        config.max_parallel_resync_count - pending
    } else {
        0
    }
}

/// The outcome of the periodic resync over the candidates in the running state `s`: the
/// syncs of [sync_fold] are started, each with its request and timer; if an unreachable
/// node was found the vicinity is cleaned up; if a request could not be built the resync
/// stops with an error.
pub open spec fn syncs_scheduled(
    config: VicinityDiscoveryConfig,
    s: VDState,
    f: VDState,
    cands: Seq<NodeId>,
    uln_table: Map<NodeId, UnderlayNeighborId>,
    known: bool,
    entries: Map<NodeId, VicinityEntry>,
    paths: Map<NodeId, Vec<NodeId>>,
    out: (Seq<VDAction>, Result<(), VDError>),
) -> bool {
    let r = sync_fold(
        cands,
        uln_table,
        known,
        entries,
        paths,
        (pending_uln_of(s).dom(), pending_qr_of(s).dom(), sync_capacity(config, s), false, false, seq![]),
    );
    let cleanup = !r.4 && r.3;
    &&& running_with(f, resync_of(s), hooks_of(s), pending_uln_of(f), pending_qr_of(f), interfaces_of(s))
    &&& uln_pending_after(pending_uln_of(s), pending_uln_of(f), out.0, r.5, config.uln_discovery_rsp_initial_max_wait_time)
    &&& qr_pending_after(pending_qr_of(s), pending_qr_of(f), out.0, r.5, config.query_route_discovery_rsp_initial_max_wait_time)
    &&& out.0.len() == 2 * r.5.len() + if cleanup { 1int } else { 0int }
    &&& realizes_syncs(out.0, r.5, config, uln_table, paths)
    &&& cleanup ==> out.0.last() == VDAction::RetainVicinity
    &&& out.1 == if r.4 { Err::<(), VDError>(VDError::NeighborInconsistency) } else { Ok::<(), VDError>(()) }
}

/// Once the resync stopped, further candidates change nothing.
proof fn lemma_sync_stopped(
    cands: Seq<NodeId>,
    k: int,
    uln_table: Map<NodeId, UnderlayNeighborId>,
    known: bool,
    entries: Map<NodeId, VicinityEntry>,
    paths: Map<NodeId, Vec<NodeId>>,
    start: SyncProgress,
)
    requires
        0 <= k <= cands.len(),
        ({
            let p = sync_fold(cands.take(k), uln_table, known, entries, paths, start);
            p.4 || p.2 <= 0
        }),
    ensures
        sync_fold(cands, uln_table, known, entries, paths, start) == sync_fold(cands.take(k), uln_table, known, entries, paths, start),
    decreases cands.len() - k,
{
    if k < cands.len() {
        let p = sync_fold(cands.take(k), uln_table, known, entries, paths, start);
        assert(cands.take(k + 1).drop_last() == cands.take(k));
        assert(sync_fold(cands.take(k + 1), uln_table, known, entries, paths, start) == p);
        lemma_sync_stopped(cands, k + 1, uln_table, known, entries, paths, start);
    } else {
        assert(cands.take(k) == cands);
    }
}

/// The vicinity discovery use case.
///
/// Discovers the underlay neighbors by ULNHello and ULNDiscReq/Rsp, queries the nodes
/// two hops away for their neighbors by QueryRouteReq/Rsp, retries unanswered requests with
/// doubled wait times and periodically resyncs the nodes whose announced sequence number is
/// newer than the synced one.
#[derive(Debug)]
pub struct VicinityDiscovery {
    state: VDState,
    config: VicinityDiscoveryConfig,
}

impl VicinityDiscovery {
    /// The state of the use case.
    pub closed spec fn state_view(&self) -> VDState {
        self.state
    }

    /// The configuration of the use case.
    pub closed spec fn config_view(&self) -> VicinityDiscoveryConfig {
        self.config
    }

    /// Creates the use case in the initialized state.
    ///
    /// The heuristic must use between 1 and 128 bits of the node ids.
    pub fn new(config: VicinityDiscoveryConfig) -> (vd: Self)
        requires
            1 <= config.heuristic_calculation_bits <= 128,
        ensures
            vd.state_view() is Initialized,
            vd.config_view() == config,
    {
        VicinityDiscovery { state: VDState::Initialized, config }
    }

    /// The current state.
    pub fn state(&self) -> (s: &VDState)
        ensures
            *s == self.state_view(),
    {
        &self.state
    }

    /// Starts the use case with the resync timer that the runtime registered with the
    /// resync timeout.
    pub fn start(&mut self, resync_timer_id: TimerId)
        ensures
            final(self).config_view() == old(self).config_view(),
            running_with(final(self).state_view(), resync_timer_id, Map::empty(), Map::empty(), Map::empty(), Map::empty()),
    {
        self.state = VDState::Running {
            resync_timer_id,
            timer_hooks: HashMap::new(),
            pending_uln_disc: HashMap::new(),
            pending_query_route: HashMap::new(),
            interfaces: HashMap::new(),
        };
    }

    /// Records the next resync timer; nothing happens unless the use case is running.
    pub fn set_next_resync_timeout(&mut self, timer_id: TimerId)
        ensures
            final(self).config_view() == old(self).config_view(),
            !(old(self).state_view() is Running) ==> final(self).state_view() == old(self).state_view(),
            old(self).state_view() is Running ==> running_with(
                final(self).state_view(),
                timer_id,
                hooks_of(old(self).state_view()),
                pending_uln_of(old(self).state_view()),
                pending_qr_of(old(self).state_view()),
                interfaces_of(old(self).state_view()),
            ),
    {
        if let VDState::Running { resync_timer_id, .. } = &mut self.state {
            *resync_timer_id = timer_id;
        }
    }

    /// Records what a timer that the runtime registered is for; nothing happens unless the
    /// use case is running.
    pub fn hook_timer(&mut self, timer_id: TimerId, hook: TimerHook)
        ensures
            final(self).config_view() == old(self).config_view(),
            !(old(self).state_view() is Running) ==> final(self).state_view() == old(self).state_view(),
            old(self).state_view() is Running ==> running_with(
                final(self).state_view(),
                resync_of(old(self).state_view()),
                hooks_of(old(self).state_view()).insert(timer_id, hook),
                pending_uln_of(old(self).state_view()),
                pending_qr_of(old(self).state_view()),
                interfaces_of(old(self).state_view()),
            ),
    {
        if let VDState::Running { timer_hooks, .. } = &mut self.state {
            timer_hooks.insert(timer_id, hook);
        }
    }
    /// Starts periodic ULNHellos on the interface that came up: one now, the next after
    /// the minimal interval. Nothing happens unless the use case is running.
    pub fn handle_interface_up(&mut self, interface: InterfaceId) -> (actions: Vec<VDAction>)
        ensures
            final(self).config_view() == old(self).config_view(),
            !(old(self).state_view() is Running) ==> actions@.len() == 0 && final(self).state_view() == old(self).state_view(),
            old(self).state_view() is Running ==> running_with(
                final(self).state_view(),
                resync_of(old(self).state_view()),
                hooks_of(old(self).state_view()),
                pending_uln_of(old(self).state_view()),
                pending_qr_of(old(self).state_view()),
                interfaces_of(old(self).state_view()).insert(interface, InterfaceState { hello_interval: old(self).config_view().uln_min_interval }),
            ) && actions@ == seq![
                VDAction::MulticastHello(interface),
                VDAction::RegisterTimer(old(self).config_view().uln_min_interval, TimerHook::SendInterfaceHello(interface)),
            ],
    {
        let mut actions: Vec<VDAction> = Vec::new();
        let interval = self.config.uln_min_interval;
        if let VDState::Running { interfaces, .. } = &mut self.state {
            actions.push(VDAction::MulticastHello(interface));
            interfaces.insert(interface, InterfaceState { hello_interval: interval });
            actions.push(VDAction::RegisterTimer(interval, TimerHook::SendInterfaceHello(interface)));
        }
        actions
    }

    /// Stops the periodic ULNHellos on the interface that went down. Nothing happens unless
    /// the use case is running.
    pub fn handle_interface_down(&mut self, interface: InterfaceId)
        ensures
            final(self).config_view() == old(self).config_view(),
            !(old(self).state_view() is Running) ==> final(self).state_view() == old(self).state_view(),
            old(self).state_view() is Running ==> running_with(
                final(self).state_view(),
                resync_of(old(self).state_view()),
                hooks_of(old(self).state_view()),
                pending_uln_of(old(self).state_view()),
                pending_qr_of(old(self).state_view()),
                interfaces_of(old(self).state_view()).remove(interface),
            ),
    {
        if let VDState::Running { interfaces, .. } = &mut self.state {
            interfaces.remove(&interface);
        }
    }

    /// A contact was added to the routing table or updated, with its active path from this
    /// node (this node first). A contact within the vicinity (from 1 up to
    /// `VICINITY_RADIUS` hops away) is asked for its underlay neighbors by a QueryRouteReq
    /// with a fresh nonce, through the underlay neighbor the path starts with, unless a
    /// QueryRouteReq to it is pending; the request waits for its response.
    /// An unknown underlay neighbor is an inconsistency.
    pub fn handle_contact_event(
        &mut self,
        path: &Vec<NodeId>,
        uln_table: &HashMap<NodeId, UnderlayNeighborId>,
    ) -> (out: (Vec<VDAction>, Result<(), VDError>))
        requires
            path@.len() >= 1,
        ensures
            final(self).config_view() == old(self).config_view(),
            ({
                let s = old(self).state_view();
                let f = final(self).state_view();
                let dest = path@.last();
                let hops = path@.len() - 1;
                let asks = s is Running && 1 <= hops <= VICINITY_RADIUS && !pending_qr_of(s).contains_key(dest);
                let wait = old(self).config_view().query_route_discovery_rsp_initial_max_wait_time;
                &&& !asks ==> out.0@.len() == 0 && out.1 is Ok && f == s
                &&& asks && !uln_table@.contains_key(path@[1]) ==> out.0@.len() == 0 && out.1 == Err::<(), VDError>(
                    VDError::NeighborInconsistency,
                ) && f == s
                &&& asks && uln_table@.contains_key(path@[1]) ==> ({
                    let nonce = action_nonce(out.0@[0]);
                    &&& out.1 is Ok
                    &&& out.0@.len() == 2
                    &&& sends_query_route_req(out.0@[0], path@, nonce, uln_table@)
                    &&& out.0@[1] == VDAction::RegisterTimer(wait, TimerHook::TimeoutQueryRouteReq(dest))
                    &&& with_pending_qr(s, f, pending_qr_of(s).insert(dest, fresh_request(ProtocolMessageKind::QueryRouteRsp, wait, nonce)))
                })
            }),
    {
        let mut actions: Vec<VDAction> = Vec::new();
        let n = path.len();
        let dest = path[n - 1];
        let wait = self.config.query_route_discovery_rsp_initial_max_wait_time;
        let pending = match &self.state {
            VDState::Running { pending_query_route, .. } => pending_query_route.contains_key(&dest),
            _ => return (actions, Ok(())),
        };
        if n < 2 || n - 1 > VICINITY_RADIUS || pending {
            return (actions, Ok(()));
        }
        let via = match uln_table.get(&path[1]) {
            Some(v) => *v,
            None => return (actions, Err(VDError::NeighborInconsistency)),
        };
        let nonce = random_u64();
        actions.push(VDAction::SendQueryRouteReq { path: copy_path(path), via, nonce });
        actions.push(VDAction::RegisterTimer(wait, TimerHook::TimeoutQueryRouteReq(dest)));
        if let VDState::Running { pending_query_route, .. } = &mut self.state {
            pending_query_route.insert(
                dest,
                RequestState { kind: ProtocolMessageKind::QueryRouteRsp, timeouts: 0, timeout: wait, expected_nonce: nonce },
            );
        }
        (actions, Ok(()))
    }

    /// The own sequence number changed: all underlay neighbors are told by a ULNHello.
    pub fn handle_ssn_changed(&self) -> (actions: Vec<VDAction>)
        ensures
            actions@ == seq![VDAction::BroadcastHello],
    {
        let mut actions: Vec<VDAction> = Vec::new();
        actions.push(VDAction::BroadcastHello);
        actions
    }

    /// Completes the pending request to `source` whose response of the kind arrived with
    /// the nonce; a response with another nonce, or of another kind, changes nothing.
    pub fn finalize_request(&mut self, source: NodeId, kind: ProtocolMessageKind, nonce: Option<Nonce>)
        ensures
            final(self).config_view() == old(self).config_view(),
            !(old(self).state_view() is Running) ==> final(self).state_view() == old(self).state_view(),
            old(self).state_view() is Running ==> {
                let s = old(self).state_view();
                &&& kind == ProtocolMessageKind::ULNDiscRsp ==> with_pending_uln(s, final(self).state_view(), finalized(pending_uln_of(s), source, nonce))
                &&& kind == ProtocolMessageKind::QueryRouteRsp ==> with_pending_qr(s, final(self).state_view(), finalized(pending_qr_of(s), source, nonce))
                &&& (kind != ProtocolMessageKind::ULNDiscRsp && kind != ProtocolMessageKind::QueryRouteRsp) ==> final(self).state_view() == s
            },
    {
        let pending = match &mut self.state {
            VDState::Running { pending_uln_disc, pending_query_route, .. } => match kind {
                ProtocolMessageKind::ULNDiscRsp => pending_uln_disc,
                ProtocolMessageKind::QueryRouteRsp => pending_query_route,
                _ => return,
            },
            _ => return,
        };
        let matches_nonce = match pending.get(&source) {
            Some(req) => match nonce {
                Some(n) => n == req.expected_nonce,
                None => false,
            },
            None => false,
        };
        if matches_nonce {
            pending.remove(&source);
        }
    }

    /// Handles a QueryRouteRsp from `source` that came over `route_len` hops: records the
    /// synced sequence number of a node on the border of the vicinity and completes the
    /// request.
    pub fn handle_query_route_rsp(
        &mut self,
        source: NodeId,
        nonce: Option<Nonce>,
        route_len: usize,
        ssn: StateSeqNr,
    ) -> (actions: Vec<VDAction>)
        ensures
            final(self).config_view() == old(self).config_view(),
            actions@ == match border_ssn(route_len, ssn) {
                Some(v) => seq![VDAction::UpdateSynchedSsn(source, v)],
                None => seq![],
            },
            !(old(self).state_view() is Running) ==> final(self).state_view() == old(self).state_view(),
            old(self).state_view() is Running ==> with_pending_qr(
                old(self).state_view(),
                final(self).state_view(),
                finalized(pending_qr_of(old(self).state_view()), source, nonce),
            ),
    {
        let mut actions: Vec<VDAction> = Vec::new();
        if route_len == VICINITY_RADIUS {
            if let StateSeqNr::Value(v) = ssn {
                actions.push(VDAction::UpdateSynchedSsn(source, v));
            }
        }
        self.finalize_request(source, ProtocolMessageKind::QueryRouteRsp, nonce);
        actions
    }

    /// Answers a QueryRouteReq from `source` (with the nonce, over the route) by a
    /// QueryRouteRsp that carries the underlay neighbors, sent back over the reversed route
    /// through the underlay neighbor it came from; a node on the border of the vicinity also
    /// announces its sequence number. Fails if an underlay neighbor has no contact.
    pub fn handle_query_route_req(
        &self,
        source: NodeId,
        nonce: Nonce,
        route: &Vec<NodeId>,
        ssn: StateSeqNr,
        via: UnderlayNeighborId,
        uln_table: &HashMap<NodeId, UnderlayNeighborId>,
        contacts: &HashSet<NodeId>,
    ) -> (out: (Vec<VDAction>, Result<(), VDError>))
        ensures
            ({
                let first = match border_ssn(route.len(), ssn) {
                    Some(v) => seq![VDAction::UpdateObservedSsn(source, v)],
                    None => seq![],
                };
                &&& !neighbors_known(uln_table@, contacts@) ==> out.0@ == first && out.1 == Err::<(), VDError>(VDError::NeighborInconsistency)
                &&& neighbors_known(uln_table@, contacts@) ==> out.1 is Ok && out.0@.len() == first.len() + 1
                    && out.0@.drop_last() == first && (out.0@.last() matches VDAction::SendQueryRouteRsp {
                    route: r,
                    via: v,
                    nonce: n,
                    neighbors,
                } && r@ == route@.reverse() && v == via && n == nonce && lists_neighbors(neighbors@, uln_table@))
            }),
    {
        let mut actions: Vec<VDAction> = Vec::new();
        if route.len() == VICINITY_RADIUS {
            if let StateSeqNr::Value(v) = ssn {
                actions.push(VDAction::UpdateObservedSsn(source, v));
            }
        }
        let neighbors = match collect_underlay_neighbors(uln_table, contacts) {
            Ok(ids) => ids,
            Err(e) => return (actions, Err(e)),
        };
        let back = reversed_path(route);
        actions.push(VDAction::SendQueryRouteRsp { route: back, via, nonce, neighbors });
        (actions, Ok(()))
    }

    /// Handles a ULNDiscReq from `source` (see [process_uln_disc]) and answers it by a
    /// ULNDiscRsp that carries the underlay neighbors. Fails if an underlay neighbor has no
    /// contact.
    pub fn handle_uln_disc_req(
        &self,
        root: NodeId,
        source: NodeId,
        nonce: Nonce,
        route_len: usize,
        ssn: StateSeqNr,
        reported: &Vec<ReportedContact>,
        old_neighbors: &HashSet<NodeId>,
        via: UnderlayNeighborId,
        uln_table: &HashMap<NodeId, UnderlayNeighborId>,
        contacts: &HashSet<NodeId>,
    ) -> (out: (Vec<VDAction>, Result<(), VDError>))
        ensures
            !neighbors_known(uln_table@, contacts@) ==> out.1 == Err::<(), VDError>(VDError::NeighborInconsistency)
                && processes_uln_disc(out.0@, root, source, route_len, ssn, reported@, old_neighbors@),
            neighbors_known(uln_table@, contacts@) ==> out.1 is Ok && out.0@.len() > 0
                && processes_uln_disc(out.0@.drop_last(), root, source, route_len, ssn, reported@, old_neighbors@)
                && (out.0@.last() matches VDAction::SendUlnDiscRsp { destination: d, via: v, nonce: n, neighbors }
                && d == source && v == via && n == nonce && lists_neighbors(neighbors@, uln_table@)),
    {
        let mut actions = process_uln_disc(root, source, route_len, ssn, reported, old_neighbors);
        let neighbors = match collect_underlay_neighbors(uln_table, contacts) {
            Ok(ids) => ids,
            Err(e) => return (actions, Err(e)),
        };
        let ghost before = actions@;
        actions.push(VDAction::SendUlnDiscRsp { destination: source, via, nonce, neighbors });
        assert(actions@.drop_last() == before);
        (actions, Ok(()))
    }

    /// Handles a ULNDiscRsp from `source` (see [process_uln_disc]) and completes the
    /// request.
    pub fn handle_uln_disc_rsp(
        &mut self,
        root: NodeId,
        source: NodeId,
        nonce: Option<Nonce>,
        route_len: usize,
        ssn: StateSeqNr,
        reported: &Vec<ReportedContact>,
        old_neighbors: &HashSet<NodeId>,
    ) -> (actions: Vec<VDAction>)
        ensures
            final(self).config_view() == old(self).config_view(),
            processes_uln_disc(actions@, root, source, route_len, ssn, reported@, old_neighbors@),
            !(old(self).state_view() is Running) ==> final(self).state_view() == old(self).state_view(),
            old(self).state_view() is Running ==> with_pending_uln(
                old(self).state_view(),
                final(self).state_view(),
                finalized(pending_uln_of(old(self).state_view()), source, nonce),
            ),
    {
        let actions = process_uln_disc(root, source, route_len, ssn, reported, old_neighbors);
        self.finalize_request(source, ProtocolMessageKind::ULNDiscRsp, nonce);
        actions
    }
    /// Starts a ULNDiscReq to the underlay neighbor with a random nonce: sends it, records
    /// it as pending and asks for its timeout timer. Fails if an underlay neighbor has no
    /// contact.
    fn init_uln_disc_req(
        &mut self,
        destination: NodeId,
        via: UnderlayNeighborId,
        uln_table: &HashMap<NodeId, UnderlayNeighborId>,
        contacts: &HashSet<NodeId>,
        actions: &mut Vec<VDAction>,
    ) -> (res: Result<(), VDError>)
        requires
            old(self).state_view() is Running,
        ensures
            final(self).config_view() == old(self).config_view(),
            !neighbors_known(uln_table@, contacts@) ==> res == Err::<(), VDError>(VDError::NeighborInconsistency)
                && final(actions)@ == old(actions)@ && final(self).state_view() == old(self).state_view(),
            neighbors_known(uln_table@, contacts@) ==> res is Ok && final(actions)@.len() == old(actions)@.len() + 2
                && final(actions)@.subrange(0, old(actions)@.len() as int) == old(actions)@
                && starts_uln_disc(
                old(self).state_view(),
                final(self).state_view(),
                final(actions)@,
                old(actions)@.len() as int,
                destination,
                via,
                uln_table@,
                old(self).config_view().uln_discovery_rsp_initial_max_wait_time,
            ),
    {
        let neighbors = match collect_underlay_neighbors(uln_table, contacts) {
            Ok(ids) => ids,
            Err(e) => return Err(e),
        };
        let nonce = random_u64();
        let wait = self.config.uln_discovery_rsp_initial_max_wait_time;
        let ghost k = actions@.len();
        actions.push(VDAction::SendUlnDiscReq { destination, via, nonce, neighbors });
        if let VDState::Running { pending_uln_disc, .. } = &mut self.state {
            pending_uln_disc.insert(
                destination,
                RequestState { kind: ProtocolMessageKind::ULNDiscRsp, timeouts: 0, timeout: wait, expected_nonce: nonce },
            );
        }
        actions.push(VDAction::RegisterTimer(wait, TimerHook::TimeoutULNDiscReq(destination)));
        assert(actions@[k as int] == VDAction::SendUlnDiscReq { destination, via, nonce, neighbors });
        Ok(())
    }

    /// Handles a ULNHello from `source`, received from the underlay neighbor over the
    /// interface; `entry` is what the vicinity graph knows of the sender. Records the
    /// announced sequence number of a known sender and, if the hello calls for it (see
    /// [hello_triggers_disc]), starts a ULNDiscReq to the sender.
    ///
    /// A hello of this node itself is ignored; before the start the use case fails with an
    /// internal error. A hello with an invalid sequence number may only come where it is
    /// ignored (the sender is this node, a request to it is pending, or the heuristic lets
    /// the sender answer).
    pub fn handle_uln_hello(
        &mut self,
        root: NodeId,
        source: NodeId,
        ssn: StateSeqNr,
        via: UnderlayNeighborId,
        interface: InterfaceId,
        entry: Option<VicinityEntry>,
        uln_table: &HashMap<NodeId, UnderlayNeighborId>,
        contacts: &HashSet<NodeId>,
    ) -> (out: (Vec<VDAction>, Result<(), VDError>))
        requires
            ssn is Invalid && source != root && old(self).state_view() is Running ==> !hello_triggers_disc(
                old(self).config_view(),
                root,
                source,
                ssn,
                interface,
                entry,
                pending_uln_of(old(self).state_view()),
                interfaces_of(old(self).state_view()),
            ),
        ensures
            final(self).config_view() == old(self).config_view(),
            ({
                let s = old(self).state_view();
                let updates = hello_updates(source, ssn, entry);
                let triggers = hello_triggers_disc(
                    old(self).config_view(),
                    root,
                    source,
                    ssn,
                    interface,
                    entry,
                    pending_uln_of(s),
                    interfaces_of(s),
                );
                let known = neighbors_known(uln_table@, contacts@);
                &&& source == root ==> out.0@.len() == 0 && out.1 is Ok && final(self).state_view() == s
                &&& source != root && !(s is Running) ==> out.0@ == updates && out.1 == Err::<(), VDError>(VDError::InternalError)
                    && final(self).state_view() == s
                &&& source != root && s is Running && !triggers ==> out.0@ == updates && out.1 is Ok && final(self).state_view() == s
                &&& source != root && s is Running && triggers && !known ==> out.0@ == updates
                    && out.1 == Err::<(), VDError>(VDError::NeighborInconsistency) && final(self).state_view() == s
                &&& source != root && s is Running && triggers && known ==> out.1 is Ok
                    && out.0@.len() == updates.len() + 2 && out.0@.subrange(0, updates.len() as int) == updates
                    && starts_uln_disc(
                    s,
                    final(self).state_view(),
                    out.0@,
                    updates.len() as int,
                    source,
                    via,
                    uln_table@,
                    old(self).config_view().uln_discovery_rsp_initial_max_wait_time,
                )
            }),
    {
        let mut actions: Vec<VDAction> = Vec::new();
        if source == root {
            return (actions, Ok(()));
        }
        let mut new_neighbor = false;
        if let StateSeqNr::Value(seen) = ssn {
            match entry {
                Some(e) => {
                    actions.push(VDAction::UpdateObservedSsn(source, seen));
                    if !e.is_direct_uln {
                        new_neighbor = true;
                    }
                },
                None => {
                    new_neighbor = true;
                },
            }
        }
        assert(actions@ == hello_updates(source, ssn, entry));
        assert(new_neighbor == hello_from_new_neighbor(ssn, entry));
        let answer = deterministic_heuristic(root, source, self.config.heuristic_calculation_bits);
        let max_wait = self.config.heuristic_max_wait_time;
        let proceed = match &self.state {
            VDState::Running { pending_uln_disc, interfaces, .. } => {
                if !new_neighbor && pending_uln_disc.contains_key(&source) {
                    false
                } else if !answer {
                    match interfaces.get(&interface) {
                        Some(st) => st.hello_interval > max_wait,
                        None => true,
                    }
                } else {
                    true
                }
            },
            _ => return (actions, Err(VDError::InternalError)),
        };
        if !proceed {
            return (actions, Ok(()));
        }
        if let StateSeqNr::Value(observed) = ssn {
            if let Some(e) = entry {
                if !new_neighbor {
                    let outdated = match e.synched_ssn {
                        Some(synched) => synched < observed,
                        None => true,
                    };
                    if !outdated {
                        return (actions, Ok(()));
                    }
                }
            }
        }
        let res = self.init_uln_disc_req(source, via, uln_table, contacts, &mut actions);
        (actions, res)
    }
    /// The timeout of a ULNDiscReq to `dest` (see [uln_disc_timed_out]); the timer's hook
    /// is already gone.
    fn uln_disc_timeout(
        &mut self,
        timer_id: TimerId,
        dest: NodeId,
        uln_table: &HashMap<NodeId, UnderlayNeighborId>,
        contacts: &HashSet<NodeId>,
    ) -> (out: (Vec<VDAction>, Result<(), VDError>))
        requires
            old(self).state_view() is Running,
            !hooks_of(old(self).state_view()).contains_key(timer_id),
        ensures
            final(self).config_view() == old(self).config_view(),
            uln_disc_timed_out(
                old(self).config_view(),
                old(self).state_view(),
                final(self).state_view(),
                timer_id,
                dest,
                uln_table@,
                neighbors_known(uln_table@, contacts@),
                (out.0@, out.1),
            ),
    {
        let ghost s = self.state_view();
        assert(hooks_of(s).remove(timer_id) =~= hooks_of(s));
        let max = self.config.uln_discovery_max_retries;
        let mut actions: Vec<VDAction> = Vec::new();
        let pending = match &mut self.state {
            VDState::Running { pending_uln_disc, .. } => pending_uln_disc,
            _ => return (actions, Ok(())),
        };
        let req = match pending.get(&dest) {
            Some(r) => *r,
            None => return (actions, Ok(())),
        };
        if req.timeouts >= max {
            pending.remove(&dest);
            actions.push(VDAction::RemoveNode(dest));
            return (actions, Ok(()));
        }
        let via = match uln_table.get(&dest) {
            Some(v) => *v,
            None => {
                pending.remove(&dest);
                return (actions, Ok(()));
            },
        };
        let neighbors = match collect_underlay_neighbors(uln_table, contacts) {
            Ok(ids) => ids,
            Err(e) => return (actions, Err(e)),
        };
        let timeout: Micros = if req.timeout > u64::MAX / 2 {
            u64::MAX
        } else {
            req.timeout * 2
        };
        actions.push(VDAction::SendUlnDiscReq { destination: dest, via, nonce: req.expected_nonce, neighbors });
        actions.push(VDAction::RegisterTimer(timeout, TimerHook::TimeoutULNDiscReq(dest)));
        pending.insert(dest, RequestState { timeouts: req.timeouts + 1, timeout, ..req });
        (actions, Ok(()))
    }

    /// The timeout of a QueryRouteReq to `dest` (see [query_route_timed_out]); the timer's
    /// hook is already gone.
    fn query_route_timeout(
        &mut self,
        timer_id: TimerId,
        root: NodeId,
        dest: NodeId,
        uln_table: &HashMap<NodeId, UnderlayNeighborId>,
        paths: &HashMap<NodeId, Vec<NodeId>>,
    ) -> (out: (Vec<VDAction>, Result<(), VDError>))
        requires
            old(self).state_view() is Running,
            !hooks_of(old(self).state_view()).contains_key(timer_id),
            paths_wf(paths@, root),
        ensures
            final(self).config_view() == old(self).config_view(),
            query_route_timed_out(
                old(self).config_view(),
                old(self).state_view(),
                final(self).state_view(),
                timer_id,
                dest,
                uln_table@,
                paths@,
                (out.0@, out.1),
            ),
    {
        let ghost s = self.state_view();
        assert(hooks_of(s).remove(timer_id) =~= hooks_of(s));
        let max = self.config.query_route_discovery_max_retries;
        let mut actions: Vec<VDAction> = Vec::new();
        let pending = match &mut self.state {
            VDState::Running { pending_query_route, .. } => pending_query_route,
            _ => return (actions, Ok(())),
        };
        let req = match pending.get(&dest) {
            Some(r) => *r,
            None => return (actions, Ok(())),
        };
        if req.timeouts >= max {
            pending.remove(&dest);
            return (actions, Ok(()));
        }
        let path = match paths.get(&dest) {
            Some(p) => p,
            None => {
                pending.remove(&dest);
                return (actions, Ok(()));
            },
        };
        assert(paths@.contains_key(dest));
        if path.len() == 2 {
            pending.remove(&dest);
            return (actions, Ok(()));
        }
        let via = match uln_table.get(&path[1]) {
            Some(v) => *v,
            None => return (actions, Err(VDError::NeighborInconsistency)),
        };
        let timeout: Micros = if req.timeout > u64::MAX / 2 {
            u64::MAX
        } else {
            req.timeout * 2
        };
        actions.push(VDAction::SendQueryRouteReq { path: copy_path(path), via, nonce: req.expected_nonce });
        actions.push(VDAction::RegisterTimer(timeout, TimerHook::TimeoutQueryRouteReq(dest)));
        pending.insert(dest, RequestState { timeouts: req.timeouts + 1, timeout, ..req });
        (actions, Ok(()))
    }

    /// The hello timer of the interface (see [hello_timer_fired]); the timer's hook is
    /// already gone.
    fn interface_hello_timer(&mut self, timer_id: TimerId, interface: InterfaceId) -> (out: (Vec<VDAction>, Result<(), VDError>))
        requires
            old(self).state_view() is Running,
            !hooks_of(old(self).state_view()).contains_key(timer_id),
        ensures
            final(self).config_view() == old(self).config_view(),
            hello_timer_fired(old(self).config_view(), old(self).state_view(), final(self).state_view(), timer_id, interface, (out.0@, out.1)),
    {
        let ghost s = self.state_view();
        assert(hooks_of(s).remove(timer_id) =~= hooks_of(s));
        let max = self.config.uln_max_interval;
        let mut actions: Vec<VDAction> = Vec::new();
        let interfaces = match &mut self.state {
            VDState::Running { interfaces, .. } => interfaces,
            _ => return (actions, Ok(())),
        };
        let st = match interfaces.get(&interface) {
            Some(st) => *st,
            None => return (actions, Ok(())),
        };
        let d: Micros = if st.hello_interval > u64::MAX / 2 {
            u64::MAX
        } else {
            st.hello_interval * 2
        };
        let next = if max < d {
            max
        } else {
            d
        };
        assert(d == doubled(st.hello_interval));
        actions.push(VDAction::MulticastHello(interface));
        interfaces.insert(interface, InterfaceState { hello_interval: next });
        actions.push(VDAction::RegisterTimer(next, TimerHook::SendInterfaceHello(interface)));
        assert(actions@ =~= seq![
            VDAction::MulticastHello(interface),
            VDAction::RegisterTimer(next, TimerHook::SendInterfaceHello(interface)),
        ]);
        (actions, Ok(()))
    }

    /// A timer other than the resync timer fired: its hook is removed and handled.
    fn handle_hook_timer(
        &mut self,
        timer_id: TimerId,
        root: NodeId,
        uln_table: &HashMap<NodeId, UnderlayNeighborId>,
        paths: &HashMap<NodeId, Vec<NodeId>>,
        contacts: &HashSet<NodeId>,
    ) -> (out: (Vec<VDAction>, Result<(), VDError>))
        requires
            old(self).state_view() is Running,
            paths_wf(paths@, root),
        ensures
            final(self).config_view() == old(self).config_view(),
            hook_timer_fired(
                old(self).config_view(),
                old(self).state_view(),
                final(self).state_view(),
                timer_id,
                uln_table@,
                paths@,
                neighbors_known(uln_table@, contacts@),
                (out.0@, out.1),
            ),
    {
        let ghost s = self.state_view();
        let hook = match &mut self.state {
            VDState::Running { timer_hooks, .. } => timer_hooks.remove(&timer_id),
            _ => return (Vec::new(), Ok(())),
        };
        let ghost s1 = self.state_view();
        assert(hooks_of(s1).remove(timer_id) =~= hooks_of(s).remove(timer_id));
        match hook {
            None => {
                assert(hooks_of(s1) =~= hooks_of(s).remove(timer_id));
                (Vec::new(), Ok(()))
            },
            Some(TimerHook::TimeoutULNDiscReq(dest)) => self.uln_disc_timeout(timer_id, dest, uln_table, contacts),
            Some(TimerHook::TimeoutQueryRouteReq(dest)) => self.query_route_timeout(timer_id, root, dest, uln_table, paths),
            Some(TimerHook::SendInterfaceHello(interface)) => self.interface_hello_timer(timer_id, interface),
        }
    }
    /// Decides on one candidate of the resync and, if it needs a sync, starts it: the
    /// request with a random nonce and its timer, recorded as pending.
    fn sync_candidate(
        &mut self,
        cand: NodeId,
        root: NodeId,
        uln_table: &HashMap<NodeId, UnderlayNeighborId>,
        collected: &Result<Vec<NodeId>, VDError>,
        snapshot: &VicinitySnapshot,
        actions: &mut Vec<VDAction>,
    ) -> (d: SyncDecision)
        requires
            old(self).state_view() is Running,
            paths_wf(snapshot.paths@, root),
            entries_wf(snapshot.entries@),
            uln_table@.contains_key(cand) || snapshot.entries@.contains_key(cand),
            collected matches Ok(ids) ==> lists_neighbors(ids@, uln_table@),
        ensures
            final(self).config_view() == old(self).config_view(),
            d == sync_decision(
                cand,
                uln_table@,
                collected is Ok,
                snapshot.entries@,
                snapshot.paths@,
                pending_uln_of(old(self).state_view()).dom(),
                pending_qr_of(old(self).state_view()).dom(),
            ),
            ({
                let s = old(self).state_view();
                let f = final(self).state_view();
                let k = old(actions)@.len() as int;
                let a = final(actions)@;
                let n = action_nonce(a[k]);
                &&& d == SyncDecision::StartUlnDisc ==> a.len() == k + 2 && a.subrange(0, k) == old(actions)@
                    && sends_uln_disc_req(a[k], cand, uln_table@[cand], n, uln_table@)
                    && a[k + 1] == VDAction::RegisterTimer(old(self).config_view().uln_discovery_rsp_initial_max_wait_time, TimerHook::TimeoutULNDiscReq(cand))
                    && with_pending_uln(s, f, pending_uln_of(s).insert(cand, fresh_request(ProtocolMessageKind::ULNDiscRsp, old(self).config_view().uln_discovery_rsp_initial_max_wait_time, n)))
                &&& d == SyncDecision::StartQueryRoute ==> a.len() == k + 2 && a.subrange(0, k) == old(actions)@
                    && sends_query_route_req(a[k], snapshot.paths@[cand]@, n, uln_table@)
                    && a[k + 1] == VDAction::RegisterTimer(old(self).config_view().query_route_discovery_rsp_initial_max_wait_time, TimerHook::TimeoutQueryRouteReq(cand))
                    && with_pending_qr(s, f, pending_qr_of(s).insert(cand, fresh_request(ProtocolMessageKind::QueryRouteRsp, old(self).config_view().query_route_discovery_rsp_initial_max_wait_time, n)))
                &&& d != SyncDecision::StartUlnDisc && d != SyncDecision::StartQueryRoute ==> a == old(actions)@ && f == s
            }),
    {
        let (uln_pending, qr_pending) = match &self.state {
            VDState::Running { pending_uln_disc, pending_query_route, .. } => (
                pending_uln_disc.contains_key(&cand),
                pending_query_route.contains_key(&cand),
            ),
            _ => (false, false),
        };
        let ghost k = actions@.len() as int;
        match uln_table.get(&cand) {
            Some(via) => {
                let entry = match snapshot.entries.get(&cand) {
                    Some(e) => *e,
                    None => return SyncDecision::Skip,
                };
                let synced = match entry.synched_ssn {
                    Some(x) => x == entry.observed_ssn,
                    None => false,
                };
                if synced || uln_pending {
                    return SyncDecision::Skip;
                }
                let neighbors = match collected {
                    Ok(ids) => copy_path(ids),
                    Err(_) => return SyncDecision::Fail,
                };
                let nonce = random_u64();
                let wait = self.config.uln_discovery_rsp_initial_max_wait_time;
                actions.push(VDAction::SendUlnDiscReq { destination: cand, via: *via, nonce, neighbors });
                if let VDState::Running { pending_uln_disc, .. } = &mut self.state {
                    pending_uln_disc.insert(
                        cand,
                        RequestState { kind: ProtocolMessageKind::ULNDiscRsp, timeouts: 0, timeout: wait, expected_nonce: nonce },
                    );
                }
                actions.push(VDAction::RegisterTimer(wait, TimerHook::TimeoutULNDiscReq(cand)));
                assert(actions@[k] == VDAction::SendUlnDiscReq { destination: cand, via: *via, nonce, neighbors });
                SyncDecision::StartUlnDisc
            },
            None => {
                let entry = match snapshot.entries.get(&cand) {
                    Some(e) => *e,
                    None => return SyncDecision::Skip,
                };
                let synced = match entry.synched_ssn {
                    Some(x) => x == entry.observed_ssn,
                    None => false,
                };
                if synced {
                    return SyncDecision::Skip;
                }
                let path = match snapshot.paths.get(&cand) {
                    Some(p) => p,
                    None => return SyncDecision::Unreachable,
                };
                assert(snapshot.paths@.contains_key(cand));
                if path.len() == 2 || qr_pending {
                    return SyncDecision::Skip;
                }
                let via = match uln_table.get(&path[1]) {
                    Some(v) => *v,
                    None => return SyncDecision::Fail,
                };
                let nonce = random_u64();
                let wait = self.config.query_route_discovery_rsp_initial_max_wait_time;
                let sent = copy_path(path);
                actions.push(VDAction::SendQueryRouteReq { path: sent, via, nonce });
                if let VDState::Running { pending_query_route, .. } = &mut self.state {
                    pending_query_route.insert(
                        cand,
                        RequestState { kind: ProtocolMessageKind::QueryRouteRsp, timeouts: 0, timeout: wait, expected_nonce: nonce },
                    );
                }
                actions.push(VDAction::RegisterTimer(wait, TimerHook::TimeoutQueryRouteReq(cand)));
                assert(actions@[k] == VDAction::SendQueryRouteReq { path: sent, via, nonce });
                SyncDecision::StartQueryRoute
            },
        }
    }
    /// The periodic resync (see [syncs_scheduled]): the candidates are the underlay
    /// neighbors, in the order of `uln_ids`, and then the nodes of the vicinity graph.
    #[verifier::spinoff_prover]
    #[verifier::rlimit(40)]
    pub fn schedule_syncs(
        &mut self,
        root: NodeId,
        uln_ids: &Vec<NodeId>,
        uln_table: &HashMap<NodeId, UnderlayNeighborId>,
        snapshot: &VicinitySnapshot,
        contacts: &HashSet<NodeId>,
    ) -> (out: (Vec<VDAction>, Result<(), VDError>))
        requires
            old(self).state_view() is Running,
            lists_neighbors(uln_ids@, uln_table@),
            paths_wf(snapshot.paths@, root),
            entries_wf(snapshot.entries@),
            forall|i: int| 0 <= i < snapshot.nodes@.len() ==> uln_table@.contains_key(#[trigger] snapshot.nodes@[i])
                || snapshot.entries@.contains_key(snapshot.nodes@[i]),
        ensures
            final(self).config_view() == old(self).config_view(),
            syncs_scheduled(
                old(self).config_view(),
                old(self).state_view(),
                final(self).state_view(),
                uln_ids@ + snapshot.nodes@,
                uln_table@,
                neighbors_known(uln_table@, contacts@),
                snapshot.entries@,
                snapshot.paths@,
                (out.0@, out.1),
            ),
    {
        let ghost s = self.state_view();
        let ghost cfg = self.config_view();
        let (nu, nq) = match &self.state {
            VDState::Running { pending_uln_disc, pending_query_route, .. } => (pending_uln_disc.len(), pending_query_route.len()),
            _ => (0, 0),
        };
        let mut capacity: usize = self.config.max_parallel_resync_count.saturating_sub(nu).saturating_sub(nq);
        let mut actions: Vec<VDAction> = Vec::new();
        let mut cands = copy_path(uln_ids);
        let mut i: usize = 0;
        while i < snapshot.nodes.len()
            invariant
                i <= snapshot.nodes@.len(),
                cands@ == uln_ids@ + snapshot.nodes@.take(i as int),
            decreases snapshot.nodes@.len() - i,
        {
            cands.push(snapshot.nodes[i]);
            assert(snapshot.nodes@.take(i + 1) == snapshot.nodes@.take(i as int).push(snapshot.nodes@[i as int]));
            i = i + 1;
        }
        assert(snapshot.nodes@.take(snapshot.nodes@.len() as int) == snapshot.nodes@);
        let ghost all = cands@;
        assert forall|x: int| 0 <= x < all.len() implies uln_table@.contains_key(#[trigger] all[x]) || snapshot.entries@.contains_key(all[x]) by {
            if x < uln_ids@.len() {
                assert(uln_ids@.to_set().contains(uln_ids@[x]));
            } else {
                assert(all[x] == snapshot.nodes@[x - uln_ids@.len()]);
            }
        }
        let collected = collect_underlay_neighbors(uln_table, contacts);
        let mut isolated = false;
        let ghost known = neighbors_known(uln_table@, contacts@);
        let ghost entries = snapshot.entries@;
        let ghost paths = snapshot.paths@;
        let ghost start: SyncProgress = (pending_uln_of(s).dom(), pending_qr_of(s).dom(), sync_capacity(cfg, s), false, false, seq![]);
        let ghost uwait = cfg.uln_discovery_rsp_initial_max_wait_time;
        let ghost qwait = cfg.query_route_discovery_rsp_initial_max_wait_time;
        assert(all.take(0) =~= Seq::<NodeId>::empty());
        let mut j: usize = 0;
        while j < cands.len() && capacity > 0
            invariant
                self.config_view() == cfg,
                cfg == old(self).config_view(),
                s == old(self).state_view(),
                all == uln_ids@ + snapshot.nodes@,
                known == neighbors_known(uln_table@, contacts@),
                start == (pending_uln_of(s).dom(), pending_qr_of(s).dom(), sync_capacity(cfg, s), false, false, Seq::<SyncTarget>::empty()),
                uwait == cfg.uln_discovery_rsp_initial_max_wait_time,
                qwait == cfg.query_route_discovery_rsp_initial_max_wait_time,
                self.state_view() is Running,
                running_with(self.state_view(), resync_of(s), hooks_of(s), pending_uln_of(self.state_view()), pending_qr_of(self.state_view()), interfaces_of(s)),
                j <= cands@.len(),
                cands@ == all,
                collected is Ok == known,
                collected matches Ok(ids) ==> lists_neighbors(ids@, uln_table@),
                paths_wf(paths, root),
                entries_wf(entries),
                entries == snapshot.entries@,
                paths == snapshot.paths@,
                forall|x: int| 0 <= x < all.len() ==> uln_table@.contains_key(#[trigger] all[x]) || entries.contains_key(all[x]),
                ({
                    let p = sync_fold(all.take(j as int), uln_table@, known, entries, paths, start);
                    &&& p.0 == pending_uln_of(self.state_view()).dom()
                    &&& p.1 == pending_qr_of(self.state_view()).dom()
                    &&& p.2 == capacity as int
                    &&& p.3 == isolated
                    &&& !p.4
                    &&& actions@.len() == 2 * p.5.len()
                    &&& realizes_syncs(actions@, p.5, cfg, uln_table@, paths)
                    &&& uln_pending_after(pending_uln_of(s), pending_uln_of(self.state_view()), actions@, p.5, uwait)
                    &&& qr_pending_after(pending_qr_of(s), pending_qr_of(self.state_view()), actions@, p.5, qwait)
                }),
            decreases cands@.len() - j,
        {
            let cand = cands[j];
            let ghost p = sync_fold(all.take(j as int), uln_table@, known, entries, paths, start);
            let ghost a0 = actions@;
            let ghost s0 = self.state_view();
            assert(uln_table@.contains_key(all[j as int]) || entries.contains_key(all[j as int]));
            let d = self.sync_candidate(cand, root, uln_table, &collected, snapshot, &mut actions);
            proof {
                assert(all.take(j + 1).drop_last() == all.take(j as int));
                assert(all.take(j + 1).last() == cand);
            }
            match d {
                SyncDecision::Fail => {
                    proof {
                        let q = sync_fold(all.take(j + 1), uln_table@, known, entries, paths, start);
                        assert(q == (p.0, p.1, p.2, p.3, true, p.5));
                        assert(self.state_view() == s0);
                        assert(actions@ == a0);
                        lemma_sync_stopped(all, j + 1, uln_table@, known, entries, paths, start);
                        assert(all.take(all.len() as int) == all);
                    }
                    return (actions, Err(VDError::NeighborInconsistency));
                },
                SyncDecision::Unreachable => {
                    isolated = true;
                },
                SyncDecision::Skip => {},
                _ => {
                    capacity = capacity - 1;
                    proof {
                        let q = sync_fold(all.take(j + 1), uln_table@, known, entries, paths, start);
                        let m = p.5.len() as int;
                        assert(q.5 == p.5.push(q.5[m]));
                        assert forall|x: int| 0 <= x < q.5.len() implies match #[trigger] q.5[x] {
                            SyncTarget::UlnDisc(c) => sends_uln_disc_req(actions@[2 * x], c, uln_table@[c], action_nonce(actions@[2 * x]), uln_table@)
                                && actions@[2 * x + 1] == VDAction::RegisterTimer(uwait, TimerHook::TimeoutULNDiscReq(c)),
                            SyncTarget::QueryRoute(c) => sends_query_route_req(actions@[2 * x], paths[c]@, action_nonce(actions@[2 * x]), uln_table@)
                                && actions@[2 * x + 1] == VDAction::RegisterTimer(qwait, TimerHook::TimeoutQueryRouteReq(c)),
                        } by {
                            if x < m {
                                assert(q.5[x] == p.5[x]);
                                assert(actions@[2 * x] == a0[2 * x]);
                                assert(actions@[2 * x + 1] == a0[2 * x + 1]);
                            } else {
                                assert(x == m);
                                assert(2 * x == a0.len());
                                if d == SyncDecision::StartUlnDisc {
                                    assert(q.5[x] == SyncTarget::UlnDisc(cand));
                                } else {
                                    assert(q.5[x] == SyncTarget::QueryRoute(cand));
                                }
                            }
                        }
                        assert forall|x: int| #![trigger p.5[x]] 0 <= x < m && d == SyncDecision::StartUlnDisc implies p.5[x] matches SyncTarget::UlnDisc(c) ==> c != cand by {
                            if let SyncTarget::UlnDisc(c) = p.5[x] {
                                assert(p.5.contains(SyncTarget::UlnDisc(c)));
                                assert(pending_uln_of(s0).contains_key(c));
                            }
                        }
                        assert forall|x: int| #![trigger p.5[x]] 0 <= x < m && d == SyncDecision::StartQueryRoute implies p.5[x] matches SyncTarget::QueryRoute(c) ==> c != cand by {
                            if let SyncTarget::QueryRoute(c) = p.5[x] {
                                assert(p.5.contains(SyncTarget::QueryRoute(c)));
                                assert(pending_qr_of(s0).contains_key(c));
                            }
                        }
                        assert(pending_uln_of(self.state_view()).dom() =~= q.0);
                        assert(pending_qr_of(self.state_view()).dom() =~= q.1);
                    }
                },
            }
            j = j + 1;
        }
        proof {
            if j < all.len() {
                lemma_sync_stopped(all, j as int, uln_table@, known, entries, paths, start);
            } else {
                assert(all.take(j as int) == all);
            }
        }
        if isolated {
            actions.push(VDAction::RetainVicinity);
        }
        (actions, Ok(()))
    }
    /// A timer fired. The resync timer starts the periodic resync (see [syncs_scheduled])
    /// and, unless it failed, asks for the next resync timer; any other timer is handled by
    /// its hook (see [hook_timer_fired]). Nothing happens unless the use case is running.
    pub fn handle_timer(
        &mut self,
        timer_id: TimerId,
        root: NodeId,
        uln_ids: &Vec<NodeId>,
        uln_table: &HashMap<NodeId, UnderlayNeighborId>,
        snapshot: &VicinitySnapshot,
        contacts: &HashSet<NodeId>,
    ) -> (out: (Vec<VDAction>, Result<(), VDError>))
        requires
            lists_neighbors(uln_ids@, uln_table@),
            paths_wf(snapshot.paths@, root),
            entries_wf(snapshot.entries@),
            forall|i: int| 0 <= i < snapshot.nodes@.len() ==> uln_table@.contains_key(#[trigger] snapshot.nodes@[i])
                || snapshot.entries@.contains_key(snapshot.nodes@[i]),
        ensures
            final(self).config_view() == old(self).config_view(),
            ({
                let s = old(self).state_view();
                let f = final(self).state_view();
                let cfg = old(self).config_view();
                let known = neighbors_known(uln_table@, contacts@);
                &&& !(s is Running) ==> out.0@.len() == 0 && out.1 is Ok && f == s
                &&& s is Running && timer_id == resync_of(s) ==> if out.1 is Ok {
                    &&& out.0@.len() > 0
                    &&& out.0@.last() == VDAction::RegisterResyncTimer(cfg.resync_timeout)
                    &&& syncs_scheduled(cfg, s, f, uln_ids@ + snapshot.nodes@, uln_table@, known, snapshot.entries@, snapshot.paths@, (out.0@.drop_last(), out.1))
                } else {
                    syncs_scheduled(cfg, s, f, uln_ids@ + snapshot.nodes@, uln_table@, known, snapshot.entries@, snapshot.paths@, (out.0@, out.1))
                }
                &&& s is Running && timer_id != resync_of(s) ==> hook_timer_fired(cfg, s, f, timer_id, uln_table@, snapshot.paths@, known, (out.0@, out.1))
            }),
    {
        let resync = match &self.state {
            VDState::Running { resync_timer_id, .. } => *resync_timer_id,
            _ => return (Vec::new(), Ok(())),
        };
        if timer_id == resync {
            let (mut actions, res) = self.schedule_syncs(root, uln_ids, uln_table, snapshot, contacts);
            if res.is_ok() {
                let ghost before = actions@;
                actions.push(VDAction::RegisterResyncTimer(self.config.resync_timeout));
                assert(actions@.drop_last() == before);
            }
            (actions, res)
        } else {
            self.handle_hook_timer(timer_id, root, uln_table, &snapshot.paths, contacts)
        }
    }
}

/// A request is retried at most the configured number of times: if no pending ULNDiscReq
/// had more timeouts than allowed before a timeout, none has after it (and the same holds
/// for QueryRouteReqs).
pub proof fn law_retries_bounded(
    config: VicinityDiscoveryConfig,
    s: VDState,
    f: VDState,
    timer_id: TimerId,
    uln_table: Map<NodeId, UnderlayNeighborId>,
    paths: Map<NodeId, Vec<NodeId>>,
    known: bool,
    out: (Seq<VDAction>, Result<(), VDError>),
)
    requires
        s is Running,
        hook_timer_fired(config, s, f, timer_id, uln_table, paths, known, out),
        forall|n: NodeId| #[trigger] pending_uln_of(s).contains_key(n) ==> pending_uln_of(s)[n].timeouts <= config.uln_discovery_max_retries,
        forall|n: NodeId| #[trigger] pending_qr_of(s).contains_key(n) ==> pending_qr_of(s)[n].timeouts <= config.query_route_discovery_max_retries,
    ensures
        forall|n: NodeId| #[trigger] pending_uln_of(f).contains_key(n) ==> pending_uln_of(f)[n].timeouts <= config.uln_discovery_max_retries,
        forall|n: NodeId| #[trigger] pending_qr_of(f).contains_key(n) ==> pending_qr_of(f)[n].timeouts <= config.query_route_discovery_max_retries,
{
}

/// The timeout of a pending QueryRouteReq with fewer timeouts than the configured retries,
/// to a node whose vicinity path runs through an underlay neighbor to it over at least two
/// hops, sends the same request (same path, same nonce) again through that neighbor, waits
/// twice as long (at most `u64::MAX`), and leaves it pending with one more timeout; once
/// the retries are used up, the request is dropped without a message.
pub proof fn law_query_route_retried_until_max(
    config: VicinityDiscoveryConfig,
    s: VDState,
    f: VDState,
    timer_id: TimerId,
    uln_table: Map<NodeId, UnderlayNeighborId>,
    paths: Map<NodeId, Vec<NodeId>>,
    known: bool,
    out: (Seq<VDAction>, Result<(), VDError>),
    dest: NodeId,
)
    requires
        s is Running,
        hooks_of(s).contains_key(timer_id),
        hooks_of(s)[timer_id] == TimerHook::TimeoutQueryRouteReq(dest),
        pending_qr_of(s).contains_key(dest),
        hook_timer_fired(config, s, f, timer_id, uln_table, paths, known, out),
    ensures
        ({
            let r = pending_qr_of(s)[dest];
            let resent = r.timeouts < config.query_route_discovery_max_retries && paths.contains_key(dest)
                && paths[dest]@.len() > 2 && uln_table.contains_key(paths[dest]@[1]);
            &&& resent ==> {
                &&& out.1 is Ok
                &&& out.0.len() == 2
                &&& out.0[0] matches VDAction::SendQueryRouteReq { path, via, nonce } && path@ == paths[dest]@ && via
                    == uln_table[paths[dest]@[1]] && nonce == r.expected_nonce
                &&& out.0[1] matches VDAction::RegisterTimer(t, TimerHook::TimeoutQueryRouteReq(d)) && d == dest
                    && t >= r.timeout && (r.timeout * 2 <= u64::MAX ==> t == r.timeout * 2) && pending_qr_of(f).contains_key(
                    dest,
                ) && pending_qr_of(f)[dest].timeout == t
                &&& pending_qr_of(f).contains_key(dest)
                &&& pending_qr_of(f)[dest].timeouts == r.timeouts + 1
                &&& pending_qr_of(f)[dest].expected_nonce == r.expected_nonce
                &&& pending_qr_of(f)[dest].kind == r.kind
            }
            &&& r.timeouts >= config.query_route_discovery_max_retries ==> out.0.len() == 0 && out.1 is Ok
                && !pending_qr_of(f).contains_key(dest)
        }),
{
    let r = pending_qr_of(s)[dest];
    if r.timeouts < config.query_route_discovery_max_retries && paths.contains_key(dest) && paths[dest]@.len() > 2
        && uln_table.contains_key(paths[dest]@[1]) {
        assert(pending_qr_of(f) == pending_qr_of(s).insert(dest, retried(r)));
    }
    if r.timeouts >= config.query_route_discovery_max_retries {
        assert(pending_qr_of(f) == pending_qr_of(s).remove(dest));
    }
}

/// The timeout of a pending ULNDiscReq with fewer timeouts than the configured retries, to
/// a node that is still an underlay neighbor (with consistent neighbor tables), sends the
/// request again with the same nonce through that neighbor, waits twice as long (at most
/// `u64::MAX`) and leaves it pending with one more timeout; once the retries are used up,
/// the request is dropped and the node removed from the vicinity graph.
pub proof fn law_uln_disc_retried_until_max(
    config: VicinityDiscoveryConfig,
    s: VDState,
    f: VDState,
    timer_id: TimerId,
    uln_table: Map<NodeId, UnderlayNeighborId>,
    paths: Map<NodeId, Vec<NodeId>>,
    known: bool,
    out: (Seq<VDAction>, Result<(), VDError>),
    dest: NodeId,
)
    requires
        s is Running,
        hooks_of(s).contains_key(timer_id),
        hooks_of(s)[timer_id] == TimerHook::TimeoutULNDiscReq(dest),
        pending_uln_of(s).contains_key(dest),
        hook_timer_fired(config, s, f, timer_id, uln_table, paths, known, out),
    ensures
        ({
            let r = pending_uln_of(s)[dest];
            &&& r.timeouts < config.uln_discovery_max_retries && uln_table.contains_key(dest) && known ==> {
                &&& out.1 is Ok
                &&& out.0.len() == 2
                &&& action_nonce(out.0[0]) == r.expected_nonce
                &&& out.0[0] matches VDAction::SendUlnDiscReq { destination, via, .. } && destination == dest && via
                    == uln_table[dest]
                &&& out.0[1] matches VDAction::RegisterTimer(t, TimerHook::TimeoutULNDiscReq(d)) && d == dest && t
                    >= r.timeout && (r.timeout * 2 <= u64::MAX ==> t == r.timeout * 2) && pending_uln_of(f).contains_key(dest)
                    && pending_uln_of(f)[dest].timeout == t
                &&& pending_uln_of(f).contains_key(dest)
                &&& pending_uln_of(f)[dest].timeouts == r.timeouts + 1
                &&& pending_uln_of(f)[dest].expected_nonce == r.expected_nonce
            }
            &&& r.timeouts >= config.uln_discovery_max_retries ==> out.0 == seq![VDAction::RemoveNode(dest)] && out.1 is Ok
                && !pending_uln_of(f).contains_key(dest)
        }),
{
    let r = pending_uln_of(s)[dest];
    if r.timeouts < config.uln_discovery_max_retries && uln_table.contains_key(dest) && known {
        assert(pending_uln_of(f) == pending_uln_of(s).insert(dest, retried(r)));
    }
    if r.timeouts >= config.uln_discovery_max_retries {
        assert(pending_uln_of(f) == pending_uln_of(s).remove(dest));
    }
}

/// The resync starts at most as many syncs as its capacity allows: the configured number
/// of parallel syncs less the pending requests.
pub proof fn law_resync_respects_capacity(
    cands: Seq<NodeId>,
    uln_table: Map<NodeId, UnderlayNeighborId>,
    known: bool,
    entries: Map<NodeId, VicinityEntry>,
    paths: Map<NodeId, Vec<NodeId>>,
    start: SyncProgress,
)
    requires
        start.2 >= 0,
        start.5.len() == 0,
    ensures
        ({
            let r = sync_fold(cands, uln_table, known, entries, paths, start);
            &&& r.2 >= 0
            &&& r.5.len() + r.2 == start.2
            &&& r.5.len() <= start.2
        }),
    decreases cands.len(),
{
    if cands.len() > 0 {
        law_resync_respects_capacity(cands.drop_last(), uln_table, known, entries, paths, start);
    }
}

} // verus!
