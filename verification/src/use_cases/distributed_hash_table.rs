//! The distributed hash table (DHT) at a node: key-based routing of StoreReqs and
//! FetchReqs, garbage collection of its local hash table, and the republishing of the
//! values it keeps to the nodes closest to their keys.
//!
//! The local hash table lives with the runtime; the use case reads what it holds and the
//! metadata of its entries, and tells the runtime what to store, answer, forward, evict
//! and republish.

use std::collections::HashMap;

use vstd::prelude::*;

use crate::domain::{
    copy_path, reversed_path, Contact, ContactState, GroupingError, Micros, NodeId, Nonce, ProtocolMessageKind,
    SourceRoute, TimerId, NODE_ID_BITS,
};
use crate::utils::nonce::distinct_nonce;

verus! {

broadcast use {vstd::std_specs::hash::group_hash_axioms, vstd::seq_lib::group_seq_properties};

/// Default interval between garbage collections: one minute, in microseconds.
pub const DEFAULT_COLLECT_INTERVAL: Micros = 60_000_000;

/// A key-value pair not accessed for this long is evicted: four hours, in microseconds.
pub const DEFAULT_KEY_VALUE_TIMEOUT: Micros = 14_400_000_000;

/// A key republished this recently is not republished again: five minutes, in
/// microseconds.
pub const DEFAULT_REPUBLISH_SUPPRESSION_WINDOW: Micros = 300_000_000;

/// Configuration of the [DistributedHashTable]; durations in microseconds.
#[derive(Debug, Clone, Copy, PartialEq, Eq, Structural)]
pub struct DistributedHashTableConfig {
    /// Wait time for the FindNodeRsp that locates the nodes closest to a key.
    pub find_node_timeout: Micros,
    /// Interval between garbage collections (randomized by the runtime into half to one
    /// and a half times of it).
    pub collect_interval: Micros,
    /// A key-value pair that was not accessed for longer is evicted.
    pub key_value_timeout: Micros,
    /// Number of nodes that keep a value: the size of the neighborhood asked for.
    pub redundancy: usize,
    /// A key that was republished within this window is not republished again.
    pub republish_suppression_window: Micros,
    /// Number of grouped bits for the shared prefix of two node ids (at least 1).
    pub shared_prefix_bits_grouping: u8,
}

/// What to do with the response to a request.
#[derive(Debug, Clone, Copy, PartialEq, Eq, Structural)]
pub enum ResponseHook {
    /// Republish the key to the nodes the FindNodeRsp names.
    RepublishKey { key: NodeId },
}

/// A request that waits for its response.
#[derive(Debug, Clone, Copy, PartialEq, Eq, Structural)]
pub struct RequestState {
    pub response_kind: ProtocolMessageKind,
    pub response_hook: ResponseHook,
}

/// What a timer of the use case is for.
#[derive(Debug, Clone, Copy, PartialEq, Eq, Structural)]
pub enum TimerHook {
    GarbageCollection,
    TimeoutFindNodeReq(Nonce),
}

/// State of the [DistributedHashTable].
#[derive(Debug)]
pub enum DHTState {
    Initialized,
    Running { timer_hooks: HashMap<TimerId, TimerHook>, pending_reqs: HashMap<Nonce, RequestState> },
    Error,
}

/// Metadata of a key in the local hash table.
#[derive(Debug, Clone, Copy, PartialEq, Eq, Structural)]
pub struct KeyMeta {
    /// When the key-value pair was last accessed, if ever.
    pub last_access: Option<Micros>,
    /// When the key was last republished, if ever.
    pub last_republish: Option<Micros>,
}

/// What the runtime is asked to do.
#[derive(Debug)]
pub enum DHTAction {
    /// Remove the key from the local hash table.
    Evict(NodeId),
    /// Look up the nodes closest to the key for a republish: send a FindNodeReq with the
    /// nonce for a neighborhood of the size, routed by key, register a timer with the
    /// FindNode timeout and pass its id with [TimerHook::TimeoutFindNodeReq] of the nonce to
    /// [DistributedHashTable::hook_timer].
    StartRepublish { key: NodeId, nonce: Nonce, neighborhood: u64 },
    /// Send the values of the key (with their age) along each of the source routes.
    Republish { key: NodeId, routes: Vec<Vec<NodeId>> },
    /// Register a timer and pass its id and the hook to [DistributedHashTable::hook_timer].
    RegisterTimer(Micros, TimerHook),
}

/// The timer hooks of a running state (empty otherwise).
pub open spec fn hooks_of(s: DHTState) -> Map<TimerId, TimerHook> {
    match s {
        DHTState::Running { timer_hooks, .. } => timer_hooks@,
        _ => Map::empty(),
    }
}

/// The pending requests of a running state, by nonce (empty otherwise).
pub open spec fn pending_of(s: DHTState) -> Map<Nonce, RequestState> {
    match s {
        DHTState::Running { pending_reqs, .. } => pending_reqs@,
        _ => Map::empty(),
    }
}

/// How long ago `then` was, at `now` (zero for a time in the future).
pub open spec fn since(now: Micros, then: Micros) -> int {
    if now >= then {
        now - then
    } else {
        0
    }
}

/// The key-value pair has expired: it was never accessed, or not within the timeout.
pub open spec fn expired(meta: KeyMeta, now: Micros, config: DistributedHashTableConfig) -> bool {
    match meta.last_access {
        Some(t) => since(now, t) > config.key_value_timeout,
        None => true,
    }
}

/// A kept key needs republishing: it was never republished, or not within the
/// suppression window.
pub open spec fn republish_needed(meta: KeyMeta, now: Micros, config: DistributedHashTableConfig) -> bool {
    match meta.last_republish {
        Some(t) => since(now, t) > config.republish_suppression_window,
        None => true,
    }
}

/// The size of the neighborhood asked for: the redundancy, at most `u64::MAX`.
pub open spec fn neighborhood_of(config: DistributedHashTableConfig) -> u64 {
    if config.redundancy > u64::MAX {
        u64::MAX
    } else {
        config.redundancy as u64
    }
}

/// The keys that the garbage collection acts on, in order, each with whether it is evicted
/// (or else republished).
pub open spec fn gc_plan(keys: Seq<(NodeId, KeyMeta)>, now: Micros, config: DistributedHashTableConfig) -> Seq<(NodeId, bool)>
    decreases keys.len(),
{
    if keys.len() == 0 {
        seq![]
    } else {
        let (k, m) = keys.last();
        gc_plan(keys.drop_last(), now, config) + if expired(m, now, config) {
            seq![(k, true)]
        } else if republish_needed(m, now, config) {
            seq![(k, false)]
        } else {
            seq![]
        }
    }
}

/// The actions carry out the plan: an eviction or a republish lookup per planned key,
/// each lookup with its own nonce, unused before; the pending requests gain the lookups.
pub open spec fn carries_out_gc(
    plan: Seq<(NodeId, bool)>,
    actions: Seq<DHTAction>,
    config: DistributedHashTableConfig,
    before: Map<Nonce, RequestState>,
    after: Map<Nonce, RequestState>,
) -> bool {
    &&& actions.len() == plan.len()
    &&& forall|i: int| 0 <= i < plan.len() ==> if (#[trigger] plan[i]).1 {
        actions[i] == DHTAction::Evict(plan[i].0)
    } else {
        actions[i] matches DHTAction::StartRepublish { key, nonce, neighborhood } && key == plan[i].0
            && neighborhood == neighborhood_of(config) && !before.contains_key(nonce)
            && after.contains_key(nonce) && after[nonce] == (RequestState {
            response_kind: ProtocolMessageKind::FindNodeRsp,
            response_hook: ResponseHook::RepublishKey { key: plan[i].0 },
        })
    }
    &&& forall|i: int, j: int| 0 <= i < j < plan.len() && !plan[i].1 && !plan[j].1 ==> #[trigger] lookup_nonce(actions[i]) != #[trigger] lookup_nonce(actions[j])
    &&& forall|n: Nonce| #[trigger] after.contains_key(n) <==> before.contains_key(n) || exists|i: int| 0 <= i < plan.len() && !plan[i].1 && lookup_nonce(#[trigger] actions[i]) == n
    &&& forall|n: Nonce| #[trigger] before.contains_key(n) ==> after[n] == before[n]
}

/// The nonce of a republish lookup (0 for other actions).
pub open spec fn lookup_nonce(a: DHTAction) -> Nonce {
    match a {
        DHTAction::StartRepublish { nonce, .. } => nonce,
        _ => 0,
    }
}

/// Where a StoreReq goes from this node (key-based routing).
#[derive(Debug)]
pub enum KbrStep {
    /// The request is for this node: it stores the value.
    Local,
    /// Forward the request along the route, extended to the next overlay hop.
    Forward(SourceRoute),
    /// No closer node is known: answer with a DeadEnd error along the route back.
    DeadEnd(SourceRoute),
}

/// Where a FetchReq goes from this node.
#[derive(Debug)]
pub enum FetchStep {
    /// The value is stored here: answer with it along the route back (its access is
    /// recorded).
    Found(SourceRoute),
    /// The value is not found: answer with the fetch error along the route back.
    NotFound(SourceRoute),
    /// Forward the request along the route, extended to the next overlay hop.
    Forward(SourceRoute),
}

/// What follows a store at this node: when the pair counts as accessed (if it does), and
/// the route back for the StoreRsp (if one is sent).
#[derive(Debug)]
pub struct StoreFollowUp {
    pub accessed_at: Option<Micros>,
    pub reply: Option<SourceRoute>,
}

/// The next overlay hop can carry a request: a valid contact with a path.
pub open spec fn next_hop_ok(next_hop: Option<&Contact>) -> bool {
    next_hop matches Some(c) ==> c.state == ContactState::Valid && c.path is Some && c.path->0@.len() >= 1
}

/// The route goes on along the route of the request to the next overlay hop.
pub open spec fn forwarded(r: SourceRoute, route: SourceRoute, next: Contact) -> bool {
    r.hops@ == route.hops@ + next.path->0@ && r.current == route.current + 1
}

/// The route leads back to the source of the request along the hops it traveled.
pub open spec fn back(r: SourceRoute, route: SourceRoute) -> bool {
    r.hops@ == route.traveled().reverse() && r.current == 0
}

/// The DHT use case at a node: evicts expired key-value pairs from the local hash table
/// and republishes the kept ones to the nodes closest to their keys, unless they were
/// republished recently.
#[derive(Debug)]
pub struct DistributedHashTable {
    state: DHTState,
    config: DistributedHashTableConfig,
}

impl DistributedHashTable {
    /// The state.
    pub closed spec fn state_view(&self) -> DHTState {
        self.state
    }

    /// The configuration.
    pub closed spec fn config_view(&self) -> DistributedHashTableConfig {
        self.config
    }

    /// Creates the use case; fails if the grouping is larger than a node id.
    pub fn new(config: DistributedHashTableConfig) -> (res: Result<Self, GroupingError>)
        requires
            config.shared_prefix_bits_grouping >= 1,
        ensures
            config.shared_prefix_bits_grouping > NODE_ID_BITS <==> res is Err,
            res matches Err(e) ==> e == (GroupingError::Invalid { group_size: config.shared_prefix_bits_grouping as usize }),
            res matches Ok(dht) ==> dht.state_view() is Initialized && dht.config_view() == config,
    {
        if config.shared_prefix_bits_grouping > NODE_ID_BITS {
            return Err(GroupingError::Invalid { group_size: config.shared_prefix_bits_grouping as usize });
        }
        Ok(DistributedHashTable { state: DHTState::Initialized, config })
    }

    /// The current state.
    pub fn state(&self) -> (s: &DHTState)
        ensures
            *s == self.state_view(),
    {
        &self.state
    }

    /// Starts the use case with the garbage-collection timer that the runtime registered
    /// with the collect interval.
    pub fn start(&mut self, gc_timer_id: TimerId)
        ensures
            final(self).config_view() == old(self).config_view(),
            final(self).state_view() is Running,
            hooks_of(final(self).state_view()) == map![gc_timer_id => TimerHook::GarbageCollection],
            pending_of(final(self).state_view()) == Map::<Nonce, RequestState>::empty(),
    {
        let mut timer_hooks: HashMap<TimerId, TimerHook> = HashMap::new();
        timer_hooks.insert(gc_timer_id, TimerHook::GarbageCollection);
        self.state = DHTState::Running { timer_hooks, pending_reqs: HashMap::new() };
        assert(hooks_of(self.state_view()) =~= map![gc_timer_id => TimerHook::GarbageCollection]);
    }

    /// Records what a timer that the runtime registered is for; nothing happens unless the
    /// use case is running.
    pub fn hook_timer(&mut self, timer_id: TimerId, hook: TimerHook)
        ensures
            final(self).config_view() == old(self).config_view(),
            !(old(self).state_view() is Running) ==> final(self).state_view() == old(self).state_view(),
            old(self).state_view() is Running ==> final(self).state_view() is Running && hooks_of(final(self).state_view())
                == hooks_of(old(self).state_view()).insert(timer_id, hook) && pending_of(final(self).state_view())
                == pending_of(old(self).state_view()),
    {
        if let DHTState::Running { timer_hooks, .. } = &mut self.state {
            timer_hooks.insert(timer_id, hook);
        }
    }

    /// Whether the key-value pair with the metadata has expired at `now`.
    pub fn is_expired(&self, meta: &KeyMeta, now: Micros) -> (b: bool)
        ensures
            b == expired(*meta, now, self.config_view()),
    {
        match meta.last_access {
            Some(t) => now.saturating_sub(t) > self.config.key_value_timeout,
            None => true,
        }
    }

    /// Whether the key with the metadata needs republishing at `now`; a key that is not
    /// stored needs none.
    pub fn key_republish_needed(&self, meta: Option<&KeyMeta>, now: Micros) -> (b: bool)
        ensures
            b == match meta {
                Some(m) => republish_needed(*m, now, self.config_view()),
                None => false,
            },
    {
        match meta {
            Some(m) => match m.last_republish {
                Some(t) => now.saturating_sub(t) > self.config.republish_suppression_window,
                None => true,
            },
            None => false,
        }
    }

    /// Collects garbage at `now` over the keys of the local hash table (with their
    /// metadata): expired pairs are evicted, the other keys that need it are republished
    /// (see [gc_plan] and [carries_out_gc]).
    pub fn garbage_collection(&mut self, keys: &Vec<(NodeId, KeyMeta)>, now: Micros) -> (actions: Vec<DHTAction>)
        requires
            old(self).state_view() is Running,
        ensures
            final(self).config_view() == old(self).config_view(),
            final(self).state_view() is Running,
            hooks_of(final(self).state_view()) == hooks_of(old(self).state_view()),
            carries_out_gc(
                gc_plan(keys@, now, old(self).config_view()),
                actions@,
                old(self).config_view(),
                pending_of(old(self).state_view()),
                pending_of(final(self).state_view()),
            ),
    {
        let ghost s = self.state_view();
        let cfg = self.config;
        let k = cfg.redundancy;
        let neighborhood: u64 = if k as u128 > u64::MAX as u128 {
            u64::MAX
        } else {
            k as u64
        };
        let mut actions: Vec<DHTAction> = Vec::new();
        let mut i: usize = 0;
        while i < keys.len()
            invariant
                i <= keys@.len(),
                self.config_view() == cfg,
                self.state_view() is Running,
                hooks_of(self.state_view()) == hooks_of(s),
                neighborhood == neighborhood_of(cfg),
                carries_out_gc(gc_plan(keys@.take(i as int), now, cfg), actions@, cfg, pending_of(s), pending_of(self.state_view())),
            decreases keys@.len() - i,
        {
            let (key, meta) = keys[i];
            let ghost plan0 = gc_plan(keys@.take(i as int), now, cfg);
            let ghost a0 = actions@;
            let ghost p0 = pending_of(self.state_view());
            assert(keys@.take(i + 1).drop_last() == keys@.take(i as int));
            assert(keys@.take(i + 1).last() == keys@[i as int]);
            if self.is_expired(&meta, now) {
                actions.push(DHTAction::Evict(key));
                proof {
                    let plan1 = gc_plan(keys@.take(i + 1), now, cfg);
                    assert(plan1 == plan0.push((key, true)));
                    assert forall|x: int, y: int| 0 <= x < y < plan1.len() && !plan1[x].1 && !plan1[y].1 implies #[trigger] lookup_nonce(actions@[x]) != #[trigger] lookup_nonce(actions@[y]) by {
                        assert(actions@[x] == a0[x]);
                        assert(actions@[y] == a0[y]);
                    }
                    assert forall|n: Nonce| #[trigger] p0.contains_key(n) <==> pending_of(s).contains_key(n) || exists|x: int| 0 <= x < plan1.len() && !plan1[x].1 && lookup_nonce(#[trigger] actions@[x]) == n by {
                        if exists|x: int| 0 <= x < plan1.len() && !plan1[x].1 && lookup_nonce(#[trigger] actions@[x]) == n {
                            let x = choose|x: int| 0 <= x < plan1.len() && !plan1[x].1 && lookup_nonce(#[trigger] actions@[x]) == n;
                            assert(actions@[x] == a0[x]);
                        }
                        if exists|x: int| 0 <= x < plan0.len() && !plan0[x].1 && lookup_nonce(#[trigger] a0[x]) == n {
                            let x = choose|x: int| 0 <= x < plan0.len() && !plan0[x].1 && lookup_nonce(#[trigger] a0[x]) == n;
                            assert(actions@[x] == a0[x]);
                        }
                    }
                }
            } else if self.key_republish_needed(Some(&meta), now) {
                let pending = match &mut self.state {
                    DHTState::Running { pending_reqs, .. } => pending_reqs,
                    _ => return actions,
                };
                let nonce = distinct_nonce(pending);
                pending.insert(
                    nonce,
                    RequestState { response_kind: ProtocolMessageKind::FindNodeRsp, response_hook: ResponseHook::RepublishKey { key } },
                );
                actions.push(DHTAction::StartRepublish { key, nonce, neighborhood });
                proof {
                    let plan1 = gc_plan(keys@.take(i + 1), now, cfg);
                    assert(plan1 == plan0.push((key, false)));
                    assert forall|x: int| 0 <= x < plan0.len() && !plan0[x].1 implies lookup_nonce(#[trigger] a0[x]) != nonce by {
                        assert(p0.contains_key(lookup_nonce(a0[x])));
                    }
                    assert forall|x: int, y: int| 0 <= x < y < plan1.len() && !plan1[x].1 && !plan1[y].1 implies #[trigger] lookup_nonce(actions@[x]) != #[trigger] lookup_nonce(actions@[y]) by {
                        assert(actions@[x] == a0[x]);
                        if y < plan0.len() {
                            assert(actions@[y] == a0[y]);
                        }
                    }
                    assert forall|n: Nonce| #[trigger] pending_of(self.state_view()).contains_key(n) <==> pending_of(s).contains_key(n) || exists|x: int| 0 <= x < plan1.len() && !plan1[x].1 && lookup_nonce(#[trigger] actions@[x]) == n by {
                        if n == nonce {
                            assert(lookup_nonce(actions@[plan0.len() as int]) == n);
                        }
                        if exists|x: int| 0 <= x < plan1.len() && !plan1[x].1 && lookup_nonce(#[trigger] actions@[x]) == n {
                            let x = choose|x: int| 0 <= x < plan1.len() && !plan1[x].1 && lookup_nonce(#[trigger] actions@[x]) == n;
                            if x < plan0.len() {
                                assert(actions@[x] == a0[x]);
                            }
                        }
                        if exists|x: int| 0 <= x < plan0.len() && !plan0[x].1 && lookup_nonce(#[trigger] a0[x]) == n {
                            let x = choose|x: int| 0 <= x < plan0.len() && !plan0[x].1 && lookup_nonce(#[trigger] a0[x]) == n;
                            assert(actions@[x] == a0[x]);
                        }
                    }
                    assert forall|x: int| 0 <= x < plan1.len() implies if (#[trigger] plan1[x]).1 {
                        actions@[x] == DHTAction::Evict(plan1[x].0)
                    } else {
                        actions@[x] matches DHTAction::StartRepublish { key: kk, nonce: nn, neighborhood: nb } && kk == plan1[x].0
                            && nb == neighborhood_of(cfg) && !pending_of(s).contains_key(nn)
                            && pending_of(self.state_view()).contains_key(nn) && pending_of(self.state_view())[nn] == (RequestState {
                            response_kind: ProtocolMessageKind::FindNodeRsp,
                            response_hook: ResponseHook::RepublishKey { key: plan1[x].0 },
                        })
                    } by {
                        if x < plan0.len() {
                            assert(actions@[x] == a0[x]);
                            assert(plan1[x] == plan0[x]);
                        }
                    }
                }
            } else {
                proof {
                    assert(gc_plan(keys@.take(i + 1), now, cfg) == plan0);
                }
            }
            i = i + 1;
        }
        assert(keys@.take(keys@.len() as int) == keys@);
        actions
    }
    /// A timer fired; nothing happens unless the use case is running. Its hook is removed:
    /// a FindNode timeout drops the lookup if it is still pending; the garbage-collection
    /// timer asks for the next one and collects garbage over the keys at `now`.
    pub fn handle_timer(&mut self, timer_id: TimerId, keys: &Vec<(NodeId, KeyMeta)>, now: Micros) -> (actions: Vec<DHTAction>)
        ensures
            final(self).config_view() == old(self).config_view(),
            ({
                let s = old(self).state_view();
                let f = final(self).state_view();
                let cfg = old(self).config_view();
                &&& !(s is Running) ==> actions@.len() == 0 && f == s
                &&& s is Running ==> f is Running && hooks_of(f) == hooks_of(s).remove(timer_id)
                &&& s is Running && !hooks_of(s).contains_key(timer_id) ==> actions@.len() == 0 && pending_of(f) == pending_of(s)
                &&& s is Running && hooks_of(s).contains_key(timer_id) ==> match hooks_of(s)[timer_id] {
                    TimerHook::TimeoutFindNodeReq(n) => actions@.len() == 0 && pending_of(f) == pending_of(s).remove(n),
                    TimerHook::GarbageCollection => actions@.len() > 0 && actions@[0] == DHTAction::RegisterTimer(
                        cfg.collect_interval,
                        TimerHook::GarbageCollection,
                    ) && carries_out_gc(gc_plan(keys@, now, cfg), actions@.drop_first(), cfg, pending_of(s), pending_of(f)),
                }
            }),
    {
        let mut actions: Vec<DHTAction> = Vec::new();
        let ghost s = self.state_view();
        let hook = match &mut self.state {
            DHTState::Running { timer_hooks, .. } => timer_hooks.remove(&timer_id),
            _ => return actions,
        };
        match hook {
            None => {
                assert(hooks_of(self.state_view()) =~= hooks_of(s).remove(timer_id));
                actions
            },
            Some(TimerHook::TimeoutFindNodeReq(n)) => {
                if let DHTState::Running { pending_reqs, .. } = &mut self.state {
                    let ghost before = pending_reqs@;
                    if pending_reqs.remove(&n).is_none() {
                        assert(pending_reqs@ =~= before.remove(n));
                    }
                }
                actions
            },
            Some(TimerHook::GarbageCollection) => {
                actions.push(DHTAction::RegisterTimer(self.config.collect_interval, TimerHook::GarbageCollection));
                let mut more = self.garbage_collection(keys, now);
                let ghost m = more@;
                actions.append(&mut more);
                assert(actions@.drop_first() == m);
                actions
            },
        }
    }

    /// A FindNodeRsp with the nonce arrived over the route (from the closest node to this
    /// node), carrying the contacts' paths. If it answers a pending republish lookup, the
    /// lookup is done and, if the key (by its metadata in `metas`) still needs it at `now`,
    /// its values are republished to the closest node (back along the route) and, through
    /// it, to each contact.
    pub fn handle_find_node_rsp(
        &mut self,
        nonce: Nonce,
        route: &Vec<NodeId>,
        contact_paths: &Vec<Vec<NodeId>>,
        metas: &HashMap<NodeId, KeyMeta>,
        now: Micros,
    ) -> (actions: Vec<DHTAction>)
        ensures
            final(self).config_view() == old(self).config_view(),
            ({
                let s = old(self).state_view();
                let f = final(self).state_view();
                let answers = s is Running && pending_of(s).contains_key(nonce)
                    && pending_of(s)[nonce].response_kind == ProtocolMessageKind::FindNodeRsp;
                &&& !answers ==> actions@.len() == 0 && f == s
                &&& answers ==> ({
                    let key = pending_of(s)[nonce].response_hook->key;
                    let needed = metas@.contains_key(key) && republish_needed(metas@[key], now, old(self).config_view());
                    &&& f is Running
                    &&& hooks_of(f) == hooks_of(s)
                    &&& pending_of(f) == pending_of(s).remove(nonce)
                    &&& !needed ==> actions@.len() == 0
                    &&& needed ==> actions@.len() == 1 && (actions@[0] matches DHTAction::Republish { key: k, routes } && k == key
                        && routes@.len() == contact_paths@.len() + 1 && routes@[0]@ == route@.reverse()
                        && forall|i: int| 0 <= i < contact_paths@.len() ==> (#[trigger] routes@[i + 1])@ == route@.reverse() + contact_paths@[i]@)
                })
            }),
    {
        let mut actions: Vec<DHTAction> = Vec::new();
        let window = self.config.republish_suppression_window;
        let pending = match &mut self.state {
            DHTState::Running { pending_reqs, .. } => pending_reqs,
            _ => return actions,
        };
        let expected = match pending.get(&nonce) {
            Some(req) => req.response_kind == ProtocolMessageKind::FindNodeRsp,
            None => false,
        };
        if !expected {
            return actions;
        }
        let req = match pending.remove(&nonce) {
            Some(r) => r,
            None => return actions,
        };
        let ResponseHook::RepublishKey { key } = req.response_hook;
        let needed = match metas.get(&key) {
            Some(m) => match m.last_republish {
                Some(t) => now.saturating_sub(t) > window,
                None => true,
            },
            None => false,
        };
        if !needed {
            return actions;
        }
        let to_closest = reversed_path(route);
        let mut routes: Vec<Vec<NodeId>> = Vec::new();
        routes.push(copy_path(&to_closest));
        let mut i: usize = 0;
        while i < contact_paths.len()
            invariant
                i <= contact_paths@.len(),
                to_closest@ == route@.reverse(),
                routes@.len() == i + 1,
                routes@[0]@ == route@.reverse(),
                forall|j: int| 0 <= j < i ==> (#[trigger] routes@[j + 1])@ == route@.reverse() + contact_paths@[j]@,
            decreases contact_paths@.len() - i,
        {
            let mut full = copy_path(&to_closest);
            let mut rest = copy_path(&contact_paths[i]);
            full.append(&mut rest);
            routes.push(full);
            i = i + 1;
        }
        actions.push(DHTAction::Republish { key, routes });
        actions
    }

    /// Routes a StoreReq for `destination` that reached this node along `route`: it is
    /// stored here if it is for this node; otherwise it goes on to the next overlay hop
    /// closer to the destination (`next_hop`, from the routing table), or, without one,
    /// is answered with a DeadEnd error.
    pub fn route_store_req(
        &self,
        root: NodeId,
        destination: NodeId,
        route: &SourceRoute,
        next_hop: Option<&Contact>,
    ) -> (step: KbrStep)
        requires
            route.wf(),
            next_hop_ok(next_hop),
        ensures
            destination == root ==> step is Local,
            destination != root && next_hop is Some ==> (step matches KbrStep::Forward(r) && forwarded(r, *route, *next_hop->0)),
            destination != root && next_hop is None ==> (step matches KbrStep::DeadEnd(r) && back(r, *route)),
    {
        if destination == root {
            return KbrStep::Local;
        }
        match next_hop {
            Some(c) => match &c.path {
                Some(p) => KbrStep::Forward(route.extended_and_advanced(p)),
                None => KbrStep::DeadEnd(route.reversed()),
            },
            None => KbrStep::DeadEnd(route.reversed()),
        }
    }

    /// What follows storing a value at this node (`stored`: whether the local hash table
    /// took it) at `now`. A republished value (it carries how many milliseconds ago it was
    /// last accessed) is not answered; it counts as accessed back then. Any other stored
    /// value counts as accessed now and is answered; a failed store is answered with the
    /// error.
    pub fn after_local_store(&self, stored: bool, last_accessed_ms: Option<u64>, now: Micros, route: &SourceRoute) -> (f: StoreFollowUp)
        requires
            route.wf(),
            last_accessed_ms matches Some(ms) ==> ms * 1000 <= now,
        ensures
            stored && last_accessed_ms is Some ==> f.accessed_at == Some((now - last_accessed_ms->0 * 1000) as u64)
                && f.reply is None,
            stored && last_accessed_ms is None ==> f.accessed_at == Some(now) && (f.reply matches Some(r) && back(r, *route)),
            !stored ==> f.accessed_at is None && (f.reply matches Some(r) && back(r, *route)),
    {
        if !stored {
            return StoreFollowUp { accessed_at: None, reply: Some(route.reversed()) };
        }
        match last_accessed_ms {
            Some(ms) => StoreFollowUp { accessed_at: Some(now - ms * 1000), reply: None },
            None => StoreFollowUp { accessed_at: Some(now), reply: Some(route.reversed()) },
        }
    }

    /// A contact appeared or its path changed: the values of each key of the local hash
    /// table (`keys`: each with its metadata, the contact's distance to it and this
    /// node's, as shared-prefix distances where smaller is closer) that the contact is not
    /// farther from are stored again by key-based routing, each with its age in
    /// milliseconds at `now` (see [republished_to_contact]).
    pub fn republish_to_contact_if_closer(
        &self,
        keys: &Vec<(NodeId, KeyMeta, usize, usize)>,
        now: Micros,
    ) -> (stores: Vec<(NodeId, Option<u64>)>)
        ensures
            stores@ == republished_to_contact(keys@, now),
    {
        let mut stores: Vec<(NodeId, Option<u64>)> = Vec::new();
        let mut i: usize = 0;
        while i < keys.len()
            invariant
                i <= keys@.len(),
                stores@ == republished_to_contact(keys@.take(i as int), now),
            decreases keys@.len() - i,
        {
            let (key, meta, contact_distance, own_distance) = keys[i];
            assert(keys@.take(i + 1).drop_last() == keys@.take(i as int));
            if contact_distance <= own_distance {
                let age = match meta.last_access {
                    Some(t) => Some(now.saturating_sub(t) / 1000),
                    None => None,
                };
                stores.push((key, age));
            }
            i = i + 1;
        }
        assert(keys@.take(keys@.len() as int) == keys@);
        stores
    }

    /// Routes a FetchReq for `destination` that reached this node along `route`, where
    /// the local hash table holds the key or not (`found`): a stored value is answered
    /// here; otherwise a request for this node is answered with the fetch error, and any
    /// other goes on to the next overlay hop, or, without one, is answered with the error.
    pub fn route_fetch_req(
        &self,
        root: NodeId,
        destination: NodeId,
        route: &SourceRoute,
        found: bool,
        next_hop: Option<&Contact>,
    ) -> (step: FetchStep)
        requires
            route.wf(),
            next_hop_ok(next_hop),
        ensures
            found ==> (step matches FetchStep::Found(r) && back(r, *route)),
            !found && (destination == root || next_hop is None) ==> (step matches FetchStep::NotFound(r) && back(r, *route)),
            !found && destination != root && next_hop is Some ==> (step matches FetchStep::Forward(r) && forwarded(
                r,
                *route,
                *next_hop->0,
            )),
    {
        if found {
            return FetchStep::Found(route.reversed());
        }
        if destination == root {
            return FetchStep::NotFound(route.reversed());
        }
        match next_hop {
            Some(c) => match &c.path {
                Some(p) => FetchStep::Forward(route.extended_and_advanced(p)),
                None => FetchStep::NotFound(route.reversed()),
            },
            None => FetchStep::NotFound(route.reversed()),
        }
    }
}

/// The age in milliseconds that a stored-again value carries: how long before `now` its
/// key was last accessed, if ever.
pub open spec fn access_age_ms(meta: KeyMeta, now: Micros) -> Option<u64> {
    match meta.last_access {
        Some(t) => Some((since(now, t) / 1000) as u64),
        None => None,
    }
}

/// The keys, in order, whose values are stored again for a contact, each with the age of
/// its values: those the contact is not farther from than this node.
pub open spec fn republished_to_contact(keys: Seq<(NodeId, KeyMeta, usize, usize)>, now: Micros) -> Seq<(NodeId, Option<u64>)>
    decreases keys.len(),
{
    if keys.len() == 0 {
        seq![]
    } else {
        let rest = republished_to_contact(keys.drop_last(), now);
        let e = keys.last();
        if e.2 <= e.3 {
            rest.push((e.0, access_age_ms(e.1, now)))
        } else {
            rest
        }
    }
}

/// Some key justifies the planned action: an eviction an expired key, a republish a kept
/// key that needs it.
pub open spec fn justified(keys: Seq<(NodeId, KeyMeta)>, now: Micros, config: DistributedHashTableConfig, planned: (NodeId, bool)) -> bool {
    exists|i: int| 0 <= i < keys.len() && (#[trigger] keys[i]).0 == planned.0 && if planned.1 {
        expired(keys[i].1, now, config)
    } else {
        !expired(keys[i].1, now, config) && republish_needed(keys[i].1, now, config)
    }
}

/// The garbage collection evicts exactly the expired keys, and republishes exactly the
/// kept keys that need it: every planned action is justified by a key, and every expired
/// key, or kept key that needs it, is planned so.
pub proof fn law_gc_plan(keys: Seq<(NodeId, KeyMeta)>, now: Micros, config: DistributedHashTableConfig)
    ensures
        forall|j: int| 0 <= j < gc_plan(keys, now, config).len() ==> justified(keys, now, config, #[trigger] gc_plan(keys, now, config)[j]),
        forall|i: int| 0 <= i < keys.len() && expired((#[trigger] keys[i]).1, now, config) ==> gc_plan(keys, now, config).contains((keys[i].0, true)),
        forall|i: int| 0 <= i < keys.len() && !expired((#[trigger] keys[i]).1, now, config) && republish_needed(keys[i].1, now, config)
            ==> gc_plan(keys, now, config).contains((keys[i].0, false)),
    decreases keys.len(),
{
    if keys.len() > 0 {
        let rest = keys.drop_last();
        law_gc_plan(rest, now, config);
        let p0 = gc_plan(rest, now, config);
        let p = gc_plan(keys, now, config);
        assert forall|j: int| 0 <= j < p.len() implies justified(keys, now, config, #[trigger] p[j]) by {
            if j < p0.len() {
                assert(p[j] == p0[j]);
                assert(justified(rest, now, config, p0[j]));
                let i = choose|i: int| 0 <= i < rest.len() && (#[trigger] rest[i]).0 == p0[j].0 && if p0[j].1 {
                    expired(rest[i].1, now, config)
                } else {
                    !expired(rest[i].1, now, config) && republish_needed(rest[i].1, now, config)
                };
                assert(keys[i] == rest[i]);
            } else {
                let i = keys.len() - 1;
                assert(keys[i] == keys.last());
            }
        }
        assert forall|i: int| 0 <= i < keys.len() && expired((#[trigger] keys[i]).1, now, config) implies p.contains((keys[i].0, true)) by {
            if i < rest.len() {
                assert(keys[i] == rest[i]);
                let j = choose|j: int| 0 <= j < p0.len() && p0[j] == (rest[i].0, true);
                assert(p[j] == p0[j]);
            } else {
                assert(p[p.len() - 1] == (keys[i].0, true));
            }
        }
        assert forall|i: int| 0 <= i < keys.len() && !expired((#[trigger] keys[i]).1, now, config) && republish_needed(keys[i].1, now, config) implies p.contains((keys[i].0, false)) by {
            if i < rest.len() {
                assert(keys[i] == rest[i]);
                let j = choose|j: int| 0 <= j < p0.len() && p0[j] == (rest[i].0, false);
                assert(p[j] == p0[j]);
            } else {
                assert(p[p.len() - 1] == (keys[i].0, false));
            }
        }
    }
}

} // verus!
