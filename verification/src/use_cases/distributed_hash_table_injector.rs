//! Injection of store and fetch requests into the distributed hash table (DHT): stores go
//! to the node closest to the key and, for redundancy, to its closest neighbors; stored
//! values can be restored periodically.

use std::collections::HashMap;
use std::collections::HashSet;

use vstd::prelude::*;

use crate::domain::{
    copy_bytes, copy_path, copy_payload, payload_view, reversed_path, Micros, NodeId, Nonce, ProtocolMessageKind, StoreReqData, TimerId,
};
use crate::use_cases::inject_messages::{bytes_view, is_answer, paths_view, Answer, InjectionResult};
use crate::utils::nonce::distinct_nonce;

verus! {

broadcast use {vstd::std_specs::hash::group_hash_axioms, vstd::seq_lib::group_seq_properties};

/// Interval between two restores of a stored value: one hour, in microseconds.
pub const DEFAULT_PERIODIC_RESTORE: Micros = 3_600_000_000;

/// Configuration of the [DistributedHashTableInjector]; durations in microseconds.
#[derive(Debug, Clone, Copy, PartialEq, Eq, Structural)]
pub struct DistributedHashTableInjectorConfig {
    /// Interval between periodic restores of a value.
    pub periodic_restore: Micros,
    /// Wait time for the FindNodeRsp that locates the nodes closest to a key.
    pub find_node_timeout: Micros,
    /// Wait time for a StoreRsp.
    pub store_timeout: Micros,
    /// Wait time for a FetchRsp.
    pub fetch_timeout: Micros,
    /// Number of nodes that store a value (the closest one and its neighbors): the size of
    /// the neighborhood asked for by the FindNodeReq.
    pub redundancy: usize,
}

/// What to do with the response to a request.
#[derive(Debug)]
pub enum ResponseHook {
    /// The FindNodeRsp names the nodes that store the value: send them StoreReqs.
    SendRedundantStoreReqs { payload: StoreReqData, restore: bool },
    /// Deliver the StoreRsp of the closest node, and restore the value periodically if
    /// asked to.
    RegisterStoreRsp { payload: StoreReqData, closest: NodeId, restore: bool },
    /// Deliver the FetchRsp.
    RegisterFetchRsp,
}

/// A request that waits for its response.
#[derive(Debug)]
pub struct RequestState {
    pub response_kind: ProtocolMessageKind,
    pub response_hook: ResponseHook,
}

/// What a timer of the use case is for.
#[derive(Debug)]
pub enum TimerHook {
    TimeoutFindNodeReq(Nonce),
    TimeoutRedundantStoreReq(Nonce),
    TimeoutFetchReq(Nonce),
    PeriodicRestore(StoreReqData),
}

/// State of the [DistributedHashTableInjector].
#[derive(Debug)]
pub enum DHTInjectorState {
    Initialized,
    Running { timer_hooks: HashMap<TimerId, TimerHook>, pending_reqs: HashMap<Nonce, RequestState> },
    Error,
}

/// What the runtime is asked to do.
#[derive(Debug)]
pub enum DHTInjectorAction {
    /// Send a FindNodeReq for the `neighborhood` nodes closest to the target, routed by key.
    SendFindNodeReq { target: NodeId, neighborhood: u64, nonce: Nonce },
    /// Send a StoreReq along the source route (this node first).
    SendStoreReq { nonce: Nonce, payload: StoreReqData, route: Vec<NodeId> },
    /// Send a FetchReq for the key, routed by key.
    SendFetchReq { nonce: Nonce, handle: NodeId },
    /// Register a timer and pass its id and the hook to
    /// [DistributedHashTableInjector::hook_timer].
    RegisterTimer(Micros, TimerHook),
    /// Deliver the result to the injector of the request with the nonce (an answer is
    /// delivered with the response that just arrived).
    SendResult(Nonce, InjectionResult),
}

/// The timer hooks of a running state (empty otherwise).
pub open spec fn hooks_of(s: DHTInjectorState) -> Map<TimerId, TimerHook> {
    match s {
        DHTInjectorState::Running { timer_hooks, .. } => timer_hooks@,
        _ => Map::empty(),
    }
}

/// The pending requests of a running state, by nonce (empty otherwise).
pub open spec fn pending_of(s: DHTInjectorState) -> Map<Nonce, RequestState> {
    match s {
        DHTInjectorState::Running { pending_reqs, .. } => pending_reqs@,
        _ => Map::empty(),
    }
}

/// The size of the neighborhood asked for: the redundancy, at most `u64::MAX`.
pub open spec fn neighborhood_of(config: DistributedHashTableInjectorConfig) -> u64 {
    if config.redundancy > u64::MAX {
        u64::MAX
    } else {
        config.redundancy as u64
    }
}

/// The request looks up the nodes that store the value with the key.
pub open spec fn is_lookup(r: RequestState, handle: NodeId, data: Seq<u8>, restore: bool) -> bool {
    &&& r.response_kind == ProtocolMessageKind::FindNodeRsp
    &&& r.response_hook matches ResponseHook::SendRedundantStoreReqs { payload, restore: rs }
    &&& payload_view(payload) == (handle, data, None::<u64>)
    &&& rs == restore
}

/// The running state `f` is `s` with the hooks and the request of the nonce replaced (or
/// removed); the other requests stay.
pub open spec fn running_like(
    s: DHTInjectorState,
    f: DHTInjectorState,
    hooks: Map<TimerId, TimerHook>,
    pending_dom: Set<Nonce>,
    n: Nonce,
) -> bool {
    &&& f is Running
    &&& hooks_of(f) == hooks
    &&& pending_of(f).dom() == pending_dom
    &&& forall|k: Nonce| #[trigger] pending_of(s).contains_key(k) && k != n ==> pending_of(f)[k] == pending_of(s)[k]
}

/// The actions look up the nodes that store the value: the FindNodeReq with the nonce,
/// then its timeout timer.
pub open spec fn starts_lookup(
    config: DistributedHashTableInjectorConfig,
    a: Seq<DHTInjectorAction>,
    handle: NodeId,
    n: Nonce,
) -> bool {
    &&& a.len() >= 2
    &&& a[0] == DHTInjectorAction::SendFindNodeReq { target: handle, neighborhood: neighborhood_of(config), nonce: n }
    &&& a[1] matches DHTInjectorAction::RegisterTimer(t, TimerHook::TimeoutFindNodeReq(m)) && t == config.find_node_timeout && m == n
}

/// The action sends a StoreReq with the nonce and the payload along the route.
pub open spec fn sends_store(a: DHTInjectorAction, n: Nonce, payload: (NodeId, Seq<u8>, Option<u64>), route: Seq<NodeId>) -> bool {
    a matches DHTInjectorAction::SendStoreReq { nonce, payload: p, route: r } && nonce == n && payload_view(p) == payload
        && r@ == route
}

/// The result of the request with the nonce, if the injector still waits for it.
pub open spec fn result_for(callbacks: Set<Nonce>, n: Nonce, result: InjectionResult) -> Seq<DHTInjectorAction> {
    if callbacks.contains(n) {
        seq![DHTInjectorAction::SendResult(n, result)]
    } else {
        seq![]
    }
}

/// The actions deliver the answer to the injector of the request with the nonce, if it
/// waits for a result (else there are none).
pub open spec fn delivers_answer(
    callbacks: Set<Nonce>,
    n: Nonce,
    actions: Seq<DHTInjectorAction>,
    kind: ProtocolMessageKind,
    source: NodeId,
    values: Seq<Seq<u8>>,
    contact_paths: Seq<Seq<NodeId>>,
) -> bool {
    if callbacks.contains(n) {
        actions.len() == 1 && (actions[0] matches DHTInjectorAction::SendResult(m, r) && m == n && is_answer(
            r,
            kind,
            source,
            values,
            contact_paths,
        ))
    } else {
        actions.len() == 0
    }
}

/// The nonce that an action carries (0 for timers).
pub open spec fn action_nonce(a: DHTInjectorAction) -> Nonce {
    match a {
        DHTInjectorAction::SendFindNodeReq { nonce, .. } => nonce,
        DHTInjectorAction::SendStoreReq { nonce, .. } => nonce,
        DHTInjectorAction::SendFetchReq { nonce, .. } => nonce,
        DHTInjectorAction::SendResult(nonce, _) => nonce,
        _ => 0,
    }
}

/// The nonce of the request that a timeout hook is for.
pub open spec fn timeout_nonce(h: TimerHook) -> Option<Nonce> {
    match h {
        TimerHook::TimeoutFindNodeReq(n) => Some(n),
        TimerHook::TimeoutRedundantStoreReq(n) => Some(n),
        TimerHook::TimeoutFetchReq(n) => Some(n),
        TimerHook::PeriodicRestore(_) => None,
    }
}

/// The request with the nonce is completed by the response of the kind from `source`:
/// the kind is the expected one, and a StoreRsp must come from the closest node.
pub open spec fn completes(r: RequestState, kind: ProtocolMessageKind, source: NodeId) -> bool {
    r.response_kind == kind && match r.response_hook {
        ResponseHook::RegisterStoreRsp { closest, .. } => closest == source,
        _ => true,
    }
}

/// The nonce is new: the given one, or one that no pending request uses.
pub open spec fn fresh_nonce(n: Nonce, given: Option<Nonce>, pending: Map<Nonce, RequestState>) -> bool {
    match given {
        Some(g) => n == g,
        None => !pending.contains_key(n),
    }
}

/// The outcome of a response (with the nonce, of the kind, from `source`, over the route
/// with the contacts' paths) in the running state `s` with the callbacks `cb`, when it
/// completes the pending request `r`:
/// - a FindNodeRsp sends the value to the closest node (back along the route) and, through
///   it, to each contact, and waits for the closest node's StoreRsp;
/// - a StoreRsp or FetchRsp is delivered as the answer (kind, source, values and contact
///   paths) if the injector waits for it; a delivered StoreRsp of a value to restore starts
///   its periodic restore.
pub open spec fn response_handled(
    config: DistributedHashTableInjectorConfig,
    s: DHTInjectorState,
    f: DHTInjectorState,
    cb: Set<Nonce>,
    cb2: Set<Nonce>,
    r: RequestState,
    nonce: Nonce,
    kind: ProtocolMessageKind,
    source: NodeId,
    route: Seq<NodeId>,
    values: Seq<Seq<u8>>,
    paths: Seq<Vec<NodeId>>,
    actions: Seq<DHTInjectorAction>,
) -> bool {
    match r.response_hook {
        ResponseHook::SendRedundantStoreReqs { payload, restore } => {
            let to_closest = route.reverse();
            &&& actions.len() == paths.len() + 2
            &&& sends_store(actions[0], nonce, payload_view(payload), to_closest)
            &&& forall|i: int| 0 <= i < paths.len() ==> sends_store(#[trigger] actions[i + 1], nonce, payload_view(payload), to_closest + paths[i]@)
            &&& (actions.last() matches DHTInjectorAction::RegisterTimer(t, TimerHook::TimeoutRedundantStoreReq(m))
                && t == config.store_timeout && m == nonce)
            &&& cb2 == cb
            &&& running_like(s, f, hooks_of(s), pending_of(s).dom(), nonce)
            &&& pending_of(f)[nonce].response_kind == ProtocolMessageKind::StoreRsp
            &&& (pending_of(f)[nonce].response_hook matches ResponseHook::RegisterStoreRsp { payload: p, closest, restore: rs }
                && payload_view(p) == payload_view(payload) && closest == route[0] && rs == restore)
        },
        ResponseHook::RegisterStoreRsp { payload, restore, .. } => {
            &&& running_like(s, f, hooks_of(s), pending_of(s).dom().remove(nonce), nonce)
            &&& cb2 == cb.remove(nonce)
            &&& if cb.contains(nonce) && restore {
                &&& actions.len() == 2
                &&& (actions[0] matches DHTInjectorAction::SendResult(m, r) && m == nonce && is_answer(
                    r,
                    kind,
                    source,
                    values,
                    paths_view(paths),
                ))
                &&& (actions[1] matches DHTInjectorAction::RegisterTimer(t, TimerHook::PeriodicRestore(p))
                    && t == config.periodic_restore && payload_view(p) == payload_view(payload))
            } else {
                delivers_answer(cb, nonce, actions, kind, source, values, paths_view(paths))
            }
        },
        ResponseHook::RegisterFetchRsp => {
            &&& running_like(s, f, hooks_of(s), pending_of(s).dom().remove(nonce), nonce)
            &&& cb2 == cb.remove(nonce)
            &&& delivers_answer(cb, nonce, actions, kind, source, values, paths_view(paths))
        },
    }
}

/// The use case that injects store and fetch requests into the DHT.
///
/// A store first looks up the nodes closest to the key by a FindNodeReq, then sends the
/// value to the closest node and, through it, to its neighbors; the StoreRsp of the closest
/// node is delivered, and the value is restored periodically if asked to. A fetch is routed
/// by key; its response is delivered. Unanswered requests are reported as timed out.
#[derive(Debug)]
pub struct DistributedHashTableInjector {
    state: DHTInjectorState,
    config: DistributedHashTableInjectorConfig,
    /// The nonces of the requests whose injector waits for a result.
    callbacks: HashSet<Nonce>,
}

impl DistributedHashTableInjector {
    /// The state.
    pub closed spec fn state_view(&self) -> DHTInjectorState {
        self.state
    }

    /// The configuration.
    pub closed spec fn config_view(&self) -> DistributedHashTableInjectorConfig {
        self.config
    }

    /// The nonces of the requests whose injector waits for a result.
    pub closed spec fn callbacks_view(&self) -> Set<Nonce> {
        self.callbacks@
    }

    /// Creates the use case in the initialized state.
    pub fn new(config: DistributedHashTableInjectorConfig) -> (inj: Self)
        ensures
            inj.state_view() is Initialized,
            inj.config_view() == config,
            inj.callbacks_view() == Set::<Nonce>::empty(),
    {
        DistributedHashTableInjector { state: DHTInjectorState::Initialized, config, callbacks: HashSet::new() }
    }

    /// The current state.
    pub fn state(&self) -> (s: &DHTInjectorState)
        ensures
            *s == self.state_view(),
    {
        &self.state
    }

    /// Starts the use case: running, without timers or pending requests.
    pub fn start(&mut self)
        ensures
            final(self).config_view() == old(self).config_view(),
            final(self).callbacks_view() == old(self).callbacks_view(),
            final(self).state_view() is Running,
            hooks_of(final(self).state_view()) == Map::<TimerId, TimerHook>::empty(),
            pending_of(final(self).state_view()) == Map::<Nonce, RequestState>::empty(),
    {
        self.state = DHTInjectorState::Running { timer_hooks: HashMap::new(), pending_reqs: HashMap::new() };
    }

    /// Records what a timer that the runtime registered is for; nothing happens unless the
    /// use case is running.
    pub fn hook_timer(&mut self, timer_id: TimerId, hook: TimerHook)
        ensures
            final(self).config_view() == old(self).config_view(),
            final(self).callbacks_view() == old(self).callbacks_view(),
            !(old(self).state_view() is Running) ==> final(self).state_view() == old(self).state_view(),
            old(self).state_view() is Running ==> final(self).state_view() is Running && hooks_of(final(self).state_view())
                == hooks_of(old(self).state_view()).insert(timer_id, hook) && pending_of(final(self).state_view())
                == pending_of(old(self).state_view()),
    {
        if let DHTInjectorState::Running { timer_hooks, .. } = &mut self.state {
            timer_hooks.insert(timer_id, hook);
        }
    }
    /// Injects a store of the value under the key, with the given nonce or a fresh one:
    /// looks up the nodes closest to the key. Nothing happens unless the use case is
    /// running.
    pub fn inject_store(&mut self, nonce: Option<Nonce>, handle: NodeId, data: Vec<u8>, restore: bool) -> (actions: Vec<DHTInjectorAction>)
        ensures
            final(self).config_view() == old(self).config_view(),
            !(old(self).state_view() is Running) ==> actions@.len() == 0 && final(self).state_view() == old(self).state_view()
                && final(self).callbacks_view() == old(self).callbacks_view(),
            old(self).state_view() is Running ==> ({
                let s = old(self).state_view();
                let f = final(self).state_view();
                let n = action_nonce(actions@[0]);
                &&& actions@.len() == 2
                &&& starts_lookup(old(self).config_view(), actions@, handle, n)
                &&& fresh_nonce(n, nonce, pending_of(s))
                &&& final(self).callbacks_view() == old(self).callbacks_view().insert(n)
                &&& running_like(s, f, hooks_of(s), pending_of(s).dom().insert(n), n)
                &&& is_lookup(pending_of(f)[n], handle, data@, restore)
            }),
    {
        let mut actions: Vec<DHTInjectorAction> = Vec::new();
        let k = self.config.redundancy;
        let neighborhood: u64 = if k as u128 > u64::MAX as u128 {
            u64::MAX
        } else {
            k as u64
        };
        let timeout = self.config.find_node_timeout;
        let pending = match &mut self.state {
            DHTInjectorState::Running { pending_reqs, .. } => pending_reqs,
            _ => return actions,
        };
        let n = match nonce {
            Some(n) => n,
            None => distinct_nonce(pending),
        };
        self.callbacks.insert(n);
        actions.push(DHTInjectorAction::SendFindNodeReq { target: handle, neighborhood, nonce: n });
        pending.insert(
            n,
            RequestState {
                response_kind: ProtocolMessageKind::FindNodeRsp,
                response_hook: ResponseHook::SendRedundantStoreReqs {
                    payload: StoreReqData { handle, data, last_accessed_ms: None },
                    restore,
                },
            },
        );
        actions.push(DHTInjectorAction::RegisterTimer(timeout, TimerHook::TimeoutFindNodeReq(n)));
        actions
    }

    /// Injects a fetch of the value under the key, with the given nonce or a fresh one.
    pub fn inject_fetch(&mut self, nonce: Option<Nonce>, handle: NodeId) -> (actions: Vec<DHTInjectorAction>)
        requires
            old(self).state_view() is Running,
        ensures
            final(self).config_view() == old(self).config_view(),
            ({
                let s = old(self).state_view();
                let f = final(self).state_view();
                let n = action_nonce(actions@[0]);
                &&& actions@.len() == 2
                &&& actions@[0] == DHTInjectorAction::SendFetchReq { nonce: n, handle }
                &&& (actions@[1] matches DHTInjectorAction::RegisterTimer(t, TimerHook::TimeoutFetchReq(m))
                    && t == old(self).config_view().fetch_timeout && m == n)
                &&& fresh_nonce(n, nonce, pending_of(s))
                &&& final(self).callbacks_view() == old(self).callbacks_view().insert(n)
                &&& running_like(s, f, hooks_of(s), pending_of(s).dom().insert(n), n)
                &&& pending_of(f)[n].response_kind == ProtocolMessageKind::FetchRsp
                &&& pending_of(f)[n].response_hook is RegisterFetchRsp
            }),
    {
        let mut actions: Vec<DHTInjectorAction> = Vec::new();
        let timeout = self.config.fetch_timeout;
        let pending = match &mut self.state {
            DHTInjectorState::Running { pending_reqs, .. } => pending_reqs,
            _ => return actions,
        };
        let n = match nonce {
            Some(n) => n,
            None => distinct_nonce(pending),
        };
        self.callbacks.insert(n);
        actions.push(DHTInjectorAction::SendFetchReq { nonce: n, handle });
        pending.insert(
            n,
            RequestState { response_kind: ProtocolMessageKind::FetchRsp, response_hook: ResponseHook::RegisterFetchRsp },
        );
        actions.push(DHTInjectorAction::RegisterTimer(timeout, TimerHook::TimeoutFetchReq(n)));
        actions
    }

    /// Handles a response with the nonce, of the kind, from `source`; `route` is its source
    /// route (from `source` to this node), `values` the values it returns (those of a
    /// FetchRsp) and `contact_paths` the paths of the contacts it carries. A response that completes a pending request (see [completes]) is handled
    /// as [response_handled] says; any other changes nothing.
    pub fn handle_response(
        &mut self,
        nonce: Nonce,
        kind: ProtocolMessageKind,
        source: NodeId,
        route: &Vec<NodeId>,
        values: &Vec<Vec<u8>>,
        contact_paths: &Vec<Vec<NodeId>>,
    ) -> (actions: Vec<DHTInjectorAction>)
        requires
            route@.len() > 0,
        ensures
            final(self).config_view() == old(self).config_view(),
            ({
                let s = old(self).state_view();
                let handled = s is Running && pending_of(s).contains_key(nonce) && completes(pending_of(s)[nonce], kind, source);
                &&& !handled ==> actions@.len() == 0 && final(self).state_view() == s && final(self).callbacks_view() == old(self).callbacks_view()
                &&& handled ==> response_handled(
                    old(self).config_view(),
                    s,
                    final(self).state_view(),
                    old(self).callbacks_view(),
                    final(self).callbacks_view(),
                    pending_of(s)[nonce],
                    nonce,
                    kind,
                    source,
                    route@,
                    bytes_view(values@),
                    contact_paths@,
                    actions@,
                )
            }),
    {
        let mut actions: Vec<DHTInjectorAction> = Vec::new();
        let store_timeout = self.config.store_timeout;
        let periodic_restore = self.config.periodic_restore;
        let pending = match &mut self.state {
            DHTInjectorState::Running { pending_reqs, .. } => pending_reqs,
            _ => return actions,
        };
        let completed = match pending.get(&nonce) {
            Some(req) => req.response_kind == kind && match &req.response_hook {
                ResponseHook::RegisterStoreRsp { closest, .. } => *closest == source,
                _ => true,
            },
            None => false,
        };
        if !completed {
            return actions;
        }
        let req = match pending.remove(&nonce) {
            Some(r) => r,
            None => return actions,
        };
        match req.response_hook {
            ResponseHook::SendRedundantStoreReqs { payload, restore } => {
                let to_closest = reversed_path(route);
                let closest = route[0];
                actions.push(DHTInjectorAction::SendStoreReq { nonce, payload: copy_payload(&payload), route: copy_path(&to_closest) });
                let mut i: usize = 0;
                while i < contact_paths.len()
                    invariant
                        i <= contact_paths@.len(),
                        actions@.len() == i + 1,
                        to_closest@ == route@.reverse(),
                        sends_store(actions@[0], nonce, payload_view(payload), route@.reverse()),
                        forall|j: int| 0 <= j < i ==> sends_store(#[trigger] actions@[j + 1], nonce, payload_view(payload), route@.reverse() + contact_paths@[j]@),
                    decreases contact_paths@.len() - i,
                {
                    let mut full = copy_path(&to_closest);
                    let mut rest = copy_path(&contact_paths[i]);
                    full.append(&mut rest);
                    actions.push(DHTInjectorAction::SendStoreReq { nonce, payload: copy_payload(&payload), route: full });
                    i = i + 1;
                }
                pending.insert(
                    nonce,
                    RequestState {
                        response_kind: ProtocolMessageKind::StoreRsp,
                        response_hook: ResponseHook::RegisterStoreRsp { payload, closest, restore },
                    },
                );
                actions.push(DHTInjectorAction::RegisterTimer(store_timeout, TimerHook::TimeoutRedundantStoreReq(nonce)));
            },
            ResponseHook::RegisterStoreRsp { payload, restore, .. } => {
                if self.callbacks.remove(&nonce) {
                    actions.push(DHTInjectorAction::SendResult(nonce, InjectionResult::Answered(Answer::new(kind, source, values, contact_paths))));
                    if restore {
                        actions.push(DHTInjectorAction::RegisterTimer(periodic_restore, TimerHook::PeriodicRestore(payload)));
                    }
                }
            },
            ResponseHook::RegisterFetchRsp => {
                if self.callbacks.remove(&nonce) {
                    actions.push(DHTInjectorAction::SendResult(nonce, InjectionResult::Answered(Answer::new(kind, source, values, contact_paths))));
                }
            },
        }
        actions
    }

    /// A timer fired; nothing happens unless the use case is running. Its hook is removed:
    /// a timeout drops the request if it is still pending and reports the timeout to its
    /// injector; a periodic restore looks the value's nodes up again (without restoring
    /// from the answer) and schedules the next restore.
    pub fn handle_timer(&mut self, timer_id: TimerId) -> (actions: Vec<DHTInjectorAction>)
        ensures
            final(self).config_view() == old(self).config_view(),
            ({
                let s = old(self).state_view();
                let f = final(self).state_view();
                let cb = old(self).callbacks_view();
                let cfg = old(self).config_view();
                &&& !(s is Running) ==> actions@.len() == 0 && f == s && final(self).callbacks_view() == cb
                &&& s is Running && !hooks_of(s).contains_key(timer_id) ==> actions@.len() == 0
                    && running_like(s, f, hooks_of(s), pending_of(s).dom(), 0) && pending_of(f) == pending_of(s)
                    && final(self).callbacks_view() == cb
                &&& s is Running && hooks_of(s).contains_key(timer_id) ==> match hooks_of(s)[timer_id] {
                    TimerHook::PeriodicRestore(p) => {
                        let n = action_nonce(actions@[0]);
                        &&& actions@.len() == 3
                        &&& starts_lookup(cfg, actions@, p.handle, n)
                        &&& !pending_of(s).contains_key(n)
                        &&& (actions@[2] matches DHTInjectorAction::RegisterTimer(t, TimerHook::PeriodicRestore(q))
                            && t == cfg.periodic_restore && payload_view(q) == payload_view(p))
                        &&& running_like(s, f, hooks_of(s).remove(timer_id), pending_of(s).dom().insert(n), n)
                        &&& is_lookup(pending_of(f)[n], p.handle, p.data@, false)
                        &&& final(self).callbacks_view() == cb
                    },
                    h => {
                        let n = timeout_nonce(h)->0;
                        &&& pending_of(s).contains_key(n) ==> running_like(s, f, hooks_of(s).remove(timer_id), pending_of(s).dom().remove(n), n)
                            && actions@ == result_for(cb, n, InjectionResult::Timeout) && final(self).callbacks_view() == cb.remove(n)
                        &&& !pending_of(s).contains_key(n) ==> running_like(s, f, hooks_of(s).remove(timer_id), pending_of(s).dom(), n)
                            && pending_of(f) == pending_of(s) && actions@.len() == 0 && final(self).callbacks_view() == cb
                    },
                }
            }),
    {
        let mut actions: Vec<DHTInjectorAction> = Vec::new();
        let k = self.config.redundancy;
        let neighborhood: u64 = if k as u128 > u64::MAX as u128 {
            u64::MAX
        } else {
            k as u64
        };
        let find_timeout = self.config.find_node_timeout;
        let restore_interval = self.config.periodic_restore;
        let ghost s = self.state_view();
        let (hooks, pending) = match &mut self.state {
            DHTInjectorState::Running { timer_hooks, pending_reqs } => (timer_hooks, pending_reqs),
            _ => return actions,
        };
        let hook = match hooks.remove(&timer_id) {
            Some(h) => h,
            None => {
                assert(hooks@ =~= hooks_of(s));
                return actions;
            },
        };
        let n = match hook {
            TimerHook::TimeoutFindNodeReq(n) => n,
            TimerHook::TimeoutRedundantStoreReq(n) => n,
            TimerHook::TimeoutFetchReq(n) => n,
            TimerHook::PeriodicRestore(payload) => {
                let n = distinct_nonce(pending);
                actions.push(DHTInjectorAction::SendFindNodeReq { target: payload.handle, neighborhood, nonce: n });
                pending.insert(
                    n,
                    RequestState {
                        response_kind: ProtocolMessageKind::FindNodeRsp,
                        response_hook: ResponseHook::SendRedundantStoreReqs {
                            payload: StoreReqData { handle: payload.handle, data: copy_bytes(&payload.data), last_accessed_ms: None },
                            restore: false,
                        },
                    },
                );
                actions.push(DHTInjectorAction::RegisterTimer(find_timeout, TimerHook::TimeoutFindNodeReq(n)));
                actions.push(DHTInjectorAction::RegisterTimer(restore_interval, TimerHook::PeriodicRestore(payload)));
                return actions;
            },
        };
        let ghost before = pending@;
        if pending.remove(&n).is_some() {
            if self.callbacks.remove(&n) {
                actions.push(DHTInjectorAction::SendResult(n, InjectionResult::Timeout));
            }
        } else {
            assert(pending@ =~= before);
        }
        actions
    }
}

/// Each injected request gets at most one result: once a result was delivered for a nonce,
/// its injector no longer waits, and nothing more is delivered for it.
pub proof fn law_single_result(callbacks: Set<Nonce>, n: Nonce, first: InjectionResult, second: InjectionResult)
    ensures
        result_for(callbacks, n, first).len() <= 1,
        result_for(callbacks.remove(n), n, second).len() == 0,
{
}

} // verus!
