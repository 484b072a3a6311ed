//! Overlay neighborhood discovery: periodic FindNodeReqs to the own id (joins), paced by a
//! randomized exponential backoff, and to random ids (exploration).

use std::collections::HashMap;

use vstd::prelude::*;

use crate::domain::{
    copy_path, Contact, GroupingError, Micros, NodeId, Nonce, TimerId, UnderlayNeighborId, NODE_ID_BITS,
};
use crate::random::{random_u128, random_u64};
use crate::utils::exponential_backoff::{power, truncate_to_u64, ExponentialBackoff, MAX_DURATION_MICROS};

verus! {

broadcast use {vstd::std_specs::hash::group_hash_axioms, vstd::seq_lib::group_seq_properties};

/// Configuration of the [OverlayNeighborhoodDiscovery]; durations in microseconds.
#[derive(Debug, Clone, Copy, PartialEq, Eq, Structural)]
pub struct ONDConfig {
    /// Delay of the first join after the start.
    pub send_timeout: Micros,
    /// Interval of the FindNodeReqs to random ids.
    pub random_exploration_interval: Micros,
    /// Number of contacts of the overlay neighborhood that a FindNodeRsp returns.
    pub overlay_neighborhood_size: u64,
    /// Base of the backoff between joins.
    pub backoff_base: u32,
    /// Number of growing waits between joins; after that the wait stays the same.
    pub backoff_max_retries: u32,
    /// First wait between joins.
    pub backoff_starting_duration: Micros,
    /// Number of grouped bits for the shared prefix of two node ids (between 1 and 128).
    pub shared_prefix_bits_grouping: u8,
}

impl ONDConfig {
    /// The default configuration for routing-table buckets of the size: joins 250 ms after
    /// the start, exploration every 400 ms, neighborhoods of a bucket, and a backoff with
    /// base 2 starting at 250 ms that grows 6 times.
    pub fn with_bucket_size(bucket_size: u64) -> (c: Self)
        requires
            bucket_size >= 1,
        ensures
            c == (ONDConfig {
                send_timeout: 250_000,
                random_exploration_interval: 400_000,
                overlay_neighborhood_size: bucket_size,
                backoff_base: 2,
                backoff_max_retries: 6,
                backoff_starting_duration: 250_000,
                shared_prefix_bits_grouping: 1,
            }),
    {
        ONDConfig {
            send_timeout: 250_000,
            random_exploration_interval: 400_000,
            overlay_neighborhood_size: bucket_size,
            backoff_base: 2,
            backoff_max_retries: 6,
            backoff_starting_duration: 250_000,
            shared_prefix_bits_grouping: 1,
        }
    }
}

/// The two timers of the use case.
#[derive(Debug, Clone, Copy, PartialEq, Eq, Structural)]
pub enum TimerType {
    PeriodicJoin,
    RandomExploration,
}

/// State of one timer of the use case.
#[derive(Debug, Clone, Copy, PartialEq, Eq)]
pub struct TimerContext {
    /// The timer that is running, if any.
    pub timer_id: Option<TimerId>,
    /// The backoff of the waits (joins only).
    pub backoff: Option<ExponentialBackoff>,
    /// Nonce and target of the last request without a reply so far.
    pub last_msg_state: Option<(Nonce, NodeId)>,
}

/// State of the [OverlayNeighborhoodDiscovery].
#[derive(Debug, Clone, Copy, PartialEq, Eq)]
pub enum ONDState {
    Initialized,
    /// Running with the contexts of the join and the exploration timer.
    Running { join: TimerContext, exploration: TimerContext },
    /// The node has no underlay neighbors and pauses.
    Isolated,
    Error,
}

/// Errors of the [OverlayNeighborhoodDiscovery].
#[derive(Debug, Clone, Copy, PartialEq, Eq, Structural)]
pub enum ONDError {
    /// A contact or an underlay neighbor is missing.
    NeighborInconsistency,
}

impl ONDError {
    /// A description of the error.
    pub fn message(&self) -> (m: String)
        ensures
            m@ == (match *self {
                ONDError::NeighborInconsistency => "Missing contact in routing or ulntable; Is the node isolated?"@,
            }),
    {
        match self {
            ONDError::NeighborInconsistency => String::from_str("Missing contact in routing or ulntable; Is the node isolated?"),
        }
    }
}

/// What the runtime is asked to do.
#[derive(Debug)]
pub enum ONDAction {
    /// Send a FindNodeReq (not exact) with the nonce along the source route (this node
    /// first) to its last node, asking for `neighborhood` contacts.
    SendFindNodeReq { route: Vec<NodeId>, nonce: Nonce, neighborhood: u64 },
    /// Register the next join timer and pass its id to
    /// [OverlayNeighborhoodDiscovery::set_join_timer].
    RegisterJoinTimer(Micros),
}

/// The backoff of the joins is computable: its waits fit, and they are at least a
/// microsecond so that they can be randomized.
pub open spec fn backoff_config_ok(config: ONDConfig) -> bool {
    &&& config.backoff_max_retries >= 1
    &&& power(2, (config.backoff_max_retries - 1) as nat) <= u32::MAX
    &&& power(2, (config.backoff_max_retries - 1) as nat) * config.backoff_starting_duration <= MAX_DURATION_MICROS
    &&& config.backoff_starting_duration >= 1
}

/// The backoff that the first join creates.
pub open spec fn fresh_join_backoff(config: ONDConfig) -> ExponentialBackoff {
    ExponentialBackoff {
        base: 2,
        max_retries: config.backoff_max_retries,
        current_retries: 0,
        start_duration: config.backoff_starting_duration as u128,
        randomize: true,
        limit: true,
        started: false,
    }
}

/// The join backoff is the one of the configuration, somewhere along its way.
pub open spec fn join_backoff_ok(b: ExponentialBackoff, config: ONDConfig) -> bool {
    b == ExponentialBackoff { current_retries: b.current_retries, started: b.started, ..fresh_join_backoff(config) }
        && b.current_retries < b.max_retries
}

/// The backoff after one wait: it grows until the last retry, then stays.
pub open spec fn advanced(b: ExponentialBackoff) -> ExponentialBackoff {
    ExponentialBackoff {
        current_retries: if b.current_retries + 1 == b.max_retries {
            b.current_retries
        } else {
            (b.current_retries + 1) as u32
        },
        started: true,
        ..b
    }
}

/// The wait is the backoff's next duration, randomized into `[d/2, 3d/2)`.
pub open spec fn jittered(b: ExponentialBackoff, wait: u128) -> bool {
    let d = b.step_duration();
    exists|r: u128| d / 2 <= r < 3 * d / 2 && wait == #[trigger] truncate_to_u64(r)
}

/// Index of the first contact that is not `avoid` (of the first one if there is nothing to
/// avoid), or -1.
pub open spec fn first_avoiding(cs: Seq<Contact>, avoid: Option<NodeId>) -> int
    decreases cs.len(),
{
    if cs.len() == 0 {
        -1
    } else {
        let i = first_avoiding(cs.drop_last(), avoid);
        if i >= 0 {
            i
        } else if avoid is None || cs.last().id != avoid->0 {
            cs.len() - 1
        } else {
            -1
        }
    }
}

/// Powers of two grow with the exponent and are at least one.
proof fn lemma_pow2_mono(a: nat, b: nat)
    requires
        a <= b,
    ensures
        1 <= power(2, a) <= power(2, b),
    decreases b,
{
    if a < b {
        lemma_pow2_mono(a, (b - 1) as nat);
        assert(power(2, b) == 2 * power(2, (b - 1) as nat));
    } else if a > 0 {
        lemma_pow2_mono((a - 1) as nat, (a - 1) as nat);
    }
}

/// Index of the first contact that is not `avoid` (the first one if there is nothing to
/// avoid).
fn find_avoiding(cs: &Vec<Contact>, avoid: Option<NodeId>) -> (r: Option<usize>)
    ensures
        r is None <==> first_avoiding(cs@, avoid) < 0,
        r matches Some(i) ==> i == first_avoiding(cs@, avoid) && i < cs@.len(),
{
    let mut i: usize = 0;
    while i < cs.len()
        invariant
            i <= cs.len(),
            first_avoiding(cs@.take(i as int), avoid) < 0,
        decreases cs.len() - i,
    {
        assert(cs@.take(i + 1).drop_last() == cs@.take(i as int));
        let ok = match avoid {
            Some(a) => cs[i].id != a,
            None => true,
        };
        if ok {
            proof {
                lemma_first_avoiding_prefix(cs@, avoid, i as int + 1);
            }
            return Some(i);
        }
        i = i + 1;
    }
    assert(cs@.take(cs@.len() as int) == cs@);
    None
}

/// Once a prefix has a contact that is not `avoid`, the whole sequence has the same first
/// one.
proof fn lemma_first_avoiding_prefix(cs: Seq<Contact>, avoid: Option<NodeId>, k: int)
    requires
        0 <= k <= cs.len(),
        first_avoiding(cs.take(k), avoid) >= 0,
    ensures
        first_avoiding(cs, avoid) == first_avoiding(cs.take(k), avoid),
    decreases cs.len() - k,
{
    if k < cs.len() {
        assert(cs.take(k + 1).drop_last() == cs.take(k));
        lemma_first_avoiding_prefix(cs, avoid, k + 1);
    } else {
        assert(cs.take(k) == cs);
    }
}

/// The overlay neighborhood discovery use case.
///
/// Periodically sends FindNodeReqs to the own id through the closest contact (joins),
/// avoiding the target of an unanswered join, with randomized exponentially growing waits
/// that stop growing after the configured number of retries; and FindNodeReqs to random
/// ids to explore the id space. Without underlay neighbors it pauses until the vicinity
/// changes.
#[derive(Debug)]
pub struct OverlayNeighborhoodDiscovery {
    state: ONDState,
    config: ONDConfig,
}

impl OverlayNeighborhoodDiscovery {
    /// The state.
    pub closed spec fn state_view(&self) -> ONDState {
        self.state
    }

    /// The configuration.
    pub closed spec fn config_view(&self) -> ONDConfig {
        self.config
    }

    /// The join backoff, if any, is the configured one.
    pub open spec fn wf(&self) -> bool {
        &&& backoff_config_ok(self.config_view())
        &&& self.state_view() matches ONDState::Running { join, .. } ==> match join.backoff {
            Some(b) => join_backoff_ok(b, self.config_view()),
            None => true,
        }
    }

    /// Creates the use case; fails if the grouping is larger than a node id.
    pub fn new(config: ONDConfig) -> (res: Result<Self, GroupingError>)
        requires
            backoff_config_ok(config),
            config.shared_prefix_bits_grouping >= 1,
        ensures
            config.shared_prefix_bits_grouping > NODE_ID_BITS <==> res is Err,
            res matches Err(e) ==> e == (GroupingError::Invalid { group_size: config.shared_prefix_bits_grouping as usize }),
            res matches Ok(ond) ==> ond.state_view() == ONDState::Initialized && ond.config_view() == config && ond.wf(),
    {
        if config.shared_prefix_bits_grouping > NODE_ID_BITS {
            return Err(GroupingError::Invalid { group_size: config.shared_prefix_bits_grouping as usize });
        }
        Ok(OverlayNeighborhoodDiscovery { state: ONDState::Initialized, config })
    }

    /// The current state.
    pub fn state(&self) -> (s: &ONDState)
        ensures
            *s == self.state_view(),
    {
        &self.state
    }

    /// Starts the use case with the first join timer (registered with the send timeout)
    /// and the periodic exploration timer that the runtime registered.
    pub fn start(&mut self, join_timer_id: TimerId, exploration_timer_id: TimerId)
        requires
            old(self).wf(),
        ensures
            final(self).wf(),
            final(self).config_view() == old(self).config_view(),
            final(self).state_view() == (ONDState::Running {
                join: TimerContext { timer_id: Some(join_timer_id), backoff: None, last_msg_state: None },
                exploration: TimerContext { timer_id: Some(exploration_timer_id), backoff: None, last_msg_state: None },
            }),
    {
        self.state = ONDState::Running {
            join: TimerContext { timer_id: Some(join_timer_id), backoff: None, last_msg_state: None },
            exploration: TimerContext { timer_id: Some(exploration_timer_id), backoff: None, last_msg_state: None },
        };
    }

    /// Which timer of the use case the timer is, if any.
    pub fn timer_type(&self, timer_id: TimerId) -> (t: Option<TimerType>)
        ensures
            t == match self.state_view() {
                ONDState::Running { join, exploration } => if join.timer_id == Some(timer_id) {
                    Some(TimerType::PeriodicJoin)
                } else if exploration.timer_id == Some(timer_id) {
                    Some(TimerType::RandomExploration)
                } else {
                    None
                },
                _ => None,
            },
    {
        match &self.state {
            ONDState::Running { join, exploration } => {
                let is_join = match join.timer_id {
                    Some(id) => id == timer_id,
                    None => false,
                };
                let is_exploration = match exploration.timer_id {
                    Some(id) => id == timer_id,
                    None => false,
                };
                if is_join {
                    Some(TimerType::PeriodicJoin)
                } else if is_exploration {
                    Some(TimerType::RandomExploration)
                } else {
                    None
                }
            },
            _ => None,
        }
    }

    /// Records the join timer that the runtime registered; nothing happens unless the use
    /// case is running.
    pub fn set_join_timer(&mut self, timer_id: TimerId)
        requires
            old(self).wf(),
        ensures
            final(self).wf(),
            final(self).config_view() == old(self).config_view(),
            final(self).state_view() == match old(self).state_view() {
                ONDState::Running { join, exploration } => ONDState::Running {
                    join: TimerContext { timer_id: Some(timer_id), ..join },
                    exploration,
                },
                s => s,
            },
    {
        if let ONDState::Running { join, .. } = &mut self.state {
            join.timer_id = Some(timer_id);
        }
    }
    /// The join timer fired. Without underlay neighbors the use case pauses. Otherwise the
    /// join backoff (created on the first join) yields the next wait, and a join goes to
    /// the first of the contacts closest to this node that is not the target of an
    /// unanswered join, through the underlay neighbor its path starts with; its nonce is
    /// recorded and the next join timer asked for. Without such a contact, or if its
    /// underlay neighbor is unknown, no join is sent (and no timer asked for).
    pub fn send_next_join_request(
        &mut self,
        root: NodeId,
        uln_table: &HashMap<NodeId, UnderlayNeighborId>,
        closest: &Vec<Contact>,
    ) -> (actions: Vec<ONDAction>)
        requires
            old(self).wf(),
            old(self).state_view() is Running,
            forall|i: int| 0 <= i < closest@.len() ==> (#[trigger] closest@[i]).path is Some && closest@[i].path->0@.len() >= 1,
        ensures
            final(self).wf(),
            final(self).config_view() == old(self).config_view(),
            uln_table@.len() == 0 ==> actions@.len() == 0 && final(self).state_view() == ONDState::Isolated,
            uln_table@.len() > 0 ==> ({
                let cfg = old(self).config_view();
                let join = old(self).state_view()->join;
                let exploration = old(self).state_view()->exploration;
                let b0 = match join.backoff {
                    Some(b) => b,
                    None => fresh_join_backoff(cfg),
                };
                let b1 = advanced(b0);
                let avoid = match join.last_msg_state {
                    Some(m) => Some(m.1),
                    None => None,
                };
                let i = first_avoiding(closest@, avoid);
                if i < 0 || !uln_table@.contains_key(closest@[i].path->0@[0]) {
                    &&& actions@.len() == 0
                    &&& final(self).state_view() == ONDState::Running {
                        join: TimerContext { backoff: Some(b1), ..join },
                        exploration,
                    }
                } else {
                    &&& actions@.len() == 2
                    &&& (actions@[0] matches ONDAction::SendFindNodeReq { route, nonce, neighborhood }
                        && route@ == seq![root] + closest@[i].path->0@ && neighborhood == cfg.overlay_neighborhood_size
                        && final(self).state_view() == ONDState::Running {
                        join: TimerContext { timer_id: join.timer_id, backoff: Some(b1), last_msg_state: Some((nonce, closest@[i].id)) },
                        exploration,
                    })
                    &&& (actions@[1] matches ONDAction::RegisterJoinTimer(wait) && jittered(b0, wait as u128))
                }
            }),
    {
        let cfg = self.config;
        let mut actions: Vec<ONDAction> = Vec::new();
        if uln_table.len() == 0 {
            self.state = ONDState::Isolated;
            return actions;
        }
        let (mut join, exploration) = match self.state {
            ONDState::Running { join, exploration } => (join, exploration),
            _ => return actions,
        };
        let mut backoff = match join.backoff {
            Some(b) => b,
            None => {
                let mut b = ExponentialBackoff::random_with_default_base(cfg.backoff_max_retries, cfg.backoff_starting_duration as u128);
                b.set_limit();
                b
            },
        };
        let ghost b0 = backoff;
        proof {
            lemma_pow2_mono(backoff.current_retries as nat, (cfg.backoff_max_retries - 1) as nat);
            let p = power(2, backoff.current_retries as nat);
            let q = power(2, (cfg.backoff_max_retries - 1) as nat);
            assert(p * backoff.start_duration <= q * backoff.start_duration) by (nonlinear_arith)
                requires
                    p <= q,
                    backoff.start_duration >= 0;
            assert(p * backoff.start_duration >= 1) by (nonlinear_arith)
                requires
                    p >= 1,
                    backoff.start_duration >= 1;
        }
        let wait = match backoff.next() {
            Some(d) => d,
            None => 0,
        };
        assert(backoff == advanced(b0));
        join.backoff = Some(backoff);
        let avoid = match join.last_msg_state {
            Some(m) => Some(m.1),
            None => None,
        };
        let nonce = random_u64();
        let idx = find_avoiding(closest, avoid);
        let i = match idx {
            Some(i) => i,
            None => {
                self.state = ONDState::Running { join, exploration };
                return actions;
            },
        };
        let contact = &closest[i];
        let path = match &contact.path {
            Some(p) => p,
            None => {
                self.state = ONDState::Running { join, exploration };
                return actions;
            },
        };
        if !uln_table.contains_key(&path[0]) {
            self.state = ONDState::Running { join, exploration };
            return actions;
        }
        let mut route: Vec<NodeId> = Vec::new();
        route.push(root);
        let mut rest = copy_path(path);
        route.append(&mut rest);
        actions.push(ONDAction::SendFindNodeReq { route, nonce, neighborhood: cfg.overlay_neighborhood_size });
        assert(wait == truncate_to_u64(choose|r: u128| b0.step_duration() / 2 <= r < 3 * b0.step_duration() / 2 && wait == #[trigger] truncate_to_u64(r)));
        actions.push(ONDAction::RegisterJoinTimer(wait as u64));
        join.last_msg_state = Some((nonce, contact.id));
        self.state = ONDState::Running { join, exploration };
        actions
    }

    /// A random id to explore, for [send_request_to_random_id](Self::send_request_to_random_id).
    pub fn random_exploration_target(&self) -> (id: NodeId) {
        random_u128()
    }

    /// The exploration timer fired, with `target` a random id and `closest` the contact
    /// closest to it. Without underlay neighbors the use case pauses. Otherwise a
    /// FindNodeReq goes along the contact's path, through the underlay neighbor it starts
    /// with, and its nonce and target are recorded; nothing is sent without a contact or if
    /// its underlay neighbor is unknown.
    pub fn send_request_to_random_id(
        &mut self,
        root: NodeId,
        target: NodeId,
        uln_table: &HashMap<NodeId, UnderlayNeighborId>,
        closest: Option<&Contact>,
    ) -> (actions: Vec<ONDAction>)
        requires
            old(self).wf(),
            old(self).state_view() is Running,
            closest matches Some(c) ==> c.path is Some && c.path->0@.len() >= 1,
        ensures
            final(self).wf(),
            final(self).config_view() == old(self).config_view(),
            uln_table@.len() == 0 ==> actions@.len() == 0 && final(self).state_view() == ONDState::Isolated,
            uln_table@.len() > 0 ==> ({
                let join = old(self).state_view()->join;
                let exploration = old(self).state_view()->exploration;
                if closest is None || !uln_table@.contains_key(closest->0.path->0@[0]) {
                    actions@.len() == 0 && final(self).state_view() == old(self).state_view()
                } else {
                    &&& actions@.len() == 1
                    &&& actions@[0] matches ONDAction::SendFindNodeReq { route, nonce, neighborhood }
                        && route@ == seq![root] + closest->0.path->0@ && neighborhood == old(self).config_view().overlay_neighborhood_size
                        && final(self).state_view() == ONDState::Running {
                        join,
                        exploration: TimerContext { last_msg_state: Some((nonce, target)), ..exploration },
                    }
                }
            }),
    {
        let mut actions: Vec<ONDAction> = Vec::new();
        if uln_table.len() == 0 {
            self.state = ONDState::Isolated;
            return actions;
        }
        let nonce = random_u64();
        let contact = match closest {
            Some(c) => c,
            None => return actions,
        };
        let path = match &contact.path {
            Some(p) => p,
            None => return actions,
        };
        if !uln_table.contains_key(&path[0]) {
            return actions;
        }
        let mut route: Vec<NodeId> = Vec::new();
        route.push(root);
        let mut rest = copy_path(path);
        route.append(&mut rest);
        actions.push(ONDAction::SendFindNodeReq { route, nonce, neighborhood: self.config.overlay_neighborhood_size });
        if let ONDState::Running { exploration, .. } = &mut self.state {
            exploration.last_msg_state = Some((nonce, target));
        }
        actions
    }

    /// A FindNodeRsp or an error reply with the nonce arrived: if it answers the last join,
    /// that join is no longer unanswered. Replies to explorations are not tracked.
    pub fn handle_reply(&mut self, nonce: Nonce)
        requires
            old(self).wf(),
        ensures
            final(self).wf(),
            final(self).config_view() == old(self).config_view(),
            final(self).state_view() == match old(self).state_view() {
                ONDState::Running { join, exploration } => if join.last_msg_state matches Some(m) && m.0 == nonce {
                    ONDState::Running { join: TimerContext { last_msg_state: None, ..join }, exploration }
                } else {
                    old(self).state_view()
                },
                s => s,
            },
    {
        if let ONDState::Running { join, .. } = &mut self.state {
            let answered = match join.last_msg_state {
                Some(m) => m.0 == nonce,
                None => false,
            };
            if answered {
                join.last_msg_state = None;
            }
        }
    }

    /// Whether the use case should start again after the vicinity changed: it is paused
    /// for lack of underlay neighbors and now has some.
    pub fn restart_after_vicinity_change(&self, uln_table: &HashMap<NodeId, UnderlayNeighborId>) -> (restart: bool)
        ensures
            restart == (self.state_view() == ONDState::Isolated && uln_table@.len() > 0),
    {
        match self.state {
            ONDState::Isolated => uln_table.len() > 0,
            _ => false,
        }
    }
}

/// The joins never stop: a join backoff of the configuration stays one after each wait, so
/// it always has a next wait; and after its last retry its wait stays the same (it only
/// counts as started).
pub proof fn law_joins_never_stop(b: ExponentialBackoff, config: ONDConfig)
    requires
        join_backoff_ok(b, config),
    ensures
        join_backoff_ok(advanced(b), config),
        advanced(b).current_retries < advanced(b).max_retries,
        b.current_retries + 1 == b.max_retries ==> advanced(b) == (ExponentialBackoff { started: true, ..b }),
{
}

} // verus!
