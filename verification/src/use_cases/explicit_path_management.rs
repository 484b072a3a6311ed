//! Explicit path management: path setup and teardown for contacts outside the vicinity,
//! handling of path setups by others, and soft-state cleanup of their entries.

use std::collections::HashMap;

use vstd::prelude::*;

use crate::domain::{
    Contact, ContactState, Hasher, Micros, NodeId, Path, PathId, PathIdEntry, PathIdForwardingEntry,
    PathIdTableUpdate, TimerId, UnderlayNeighborId, VICINITY_RADIUS, path_hash,
};
use crate::use_cases::{ContactEvent, HandlingResult};

verus! {

broadcast use {vstd::std_specs::hash::group_hash_axioms, vstd::seq_lib::group_seq_properties};

/// Configuration of [ExplicitPathManagement]; durations in microseconds.
#[derive(Debug)]
pub struct EPMConfig {
    /// Maximum age of an externally added path entry.
    pub max_age: Micros,
    /// Interval of the cleanup of old entries.
    pub cleanup_interval: Micros,
    /// Interval of path setup refreshes; `None` disables active refreshes.
    pub refresh_interval: Option<Micros>,
    /// Hasher that derives path ids from paths.
    pub hasher: Hasher,
}

impl Default for EPMConfig {
    fn default() -> (c: Self)
        ensures
            c.max_age == 60_000_000,
            c.cleanup_interval == 60_000_000,
            c.refresh_interval == Some(20_000_000u64),
    {
        EPMConfig {
            max_age: 60_000_000,
            cleanup_interval: 60_000_000,
            refresh_interval: Some(20_000_000),
            hasher: Hasher,
        }
    }
}

/// A path entry installed on request of another node.
#[derive(Debug, Clone, Copy, PartialEq, Eq, Structural)]
pub struct Entry {
    pub path_id_entry: PathIdEntry,
    pub via: UnderlayNeighborId,
    /// When the path was last set up or probed.
    pub last_seen: Micros,
}

/// State of [ExplicitPathManagement].
#[derive(Debug)]
pub enum EPMState {
    /// Waiting for startup.
    Initialized,
    /// Running with periodic cleanup (and refresh) timers.
    Running {
        refresh_timer: Option<TimerId>,
        cleanup_timer: TimerId,
        externally_added_paths: HashMap<PathId, Entry>,
    },
    /// Unrecoverable error.
    Error,
}

/// Errors of [ExplicitPathManagement].
#[derive(Debug, Clone, Copy, PartialEq, Eq, Structural)]
pub enum EPMError {
    /// The use case was started more than once.
    AlreadyStarted,
}

/// Messages that [ExplicitPathManagement] sends along a contact's path.
#[derive(Debug, Clone, Copy, PartialEq, Eq, Structural)]
pub enum EPMMessage {
    PathSetupReq,
    ProbeReq,
    PathTeardownReq,
}

/// What the runtime is asked to do.
#[derive(Debug)]
pub enum EPMAction {
    /// Send the message from this node along the path.
    Send(EPMMessage, Path),
    /// Change the path-id forwarding table.
    UpdateFwdTable(PathIdTableUpdate),
    /// Register the next cleanup timer with the interval and pass its id to
    /// [ExplicitPathManagement::create_new_cleanup_timer].
    RegisterCleanupTimer(Micros),
    /// Register the next refresh timer with the interval and pass its id to
    /// [ExplicitPathManagement::create_new_refresh_timer].
    RegisterRefreshTimer(Micros),
}

/// The action sends the message along the path.
pub open spec fn sends(a: EPMAction, m: EPMMessage, p: Seq<NodeId>) -> bool {
    a matches EPMAction::Send(m2, path) && m2 == m && path@ == p
}

/// The action applies the forwarding-table update.
pub open spec fn updates(a: EPMAction, u: PathIdTableUpdate) -> bool {
    a matches EPMAction::UpdateFwdTable(u2) && u2 == u
}

/// The actions are exactly the messages, in order.
pub open spec fn sends_exactly(actions: Seq<EPMAction>, msgs: Seq<(EPMMessage, Seq<NodeId>)>) -> bool {
    actions.len() == msgs.len() && forall|i: int| 0 <= i < msgs.len() ==> #[trigger] sends(actions[i], msgs[i].0, msgs[i].1)
}

/// The path of a contact lies outside the vicinity.
pub open spec fn outside_vicinity(c: Contact) -> bool {
    c.path_size() > VICINITY_RADIUS
}

/// The message of a path setup for the contact: nothing unless it is valid.
pub open spec fn setup_msgs(c: Contact) -> Seq<(EPMMessage, Seq<NodeId>)> {
    if c.state == ContactState::Valid {
        seq![(EPMMessage::PathSetupReq, c.path_view().unwrap())]
    } else {
        seq![]
    }
}

/// The message of a path teardown for the contact: nothing without an active path.
pub open spec fn teardown_msgs(c: Contact) -> Seq<(EPMMessage, Seq<NodeId>)> {
    match c.path_view() {
        Some(p) => seq![(EPMMessage::PathTeardownReq, p)],
        None => seq![],
    }
}

/// The messages sent on a change of the routing table.
pub open spec fn contact_event_msgs(e: ContactEvent) -> Seq<(EPMMessage, Seq<NodeId>)> {
    match e {
        ContactEvent::New(c) => if outside_vicinity(c) {
            setup_msgs(c)
        } else {
            seq![]
        },
        ContactEvent::Removed(c) => if outside_vicinity(c) {
            teardown_msgs(c)
        } else {
            seq![]
        },
        ContactEvent::Updated { new, old } => {
            let new_out = outside_vicinity(new);
            let old_out = outside_vicinity(old);
            let path_changed = new.path_view() != old.path_view();
            match (new.state, old.state) {
                (ContactState::Valid, ContactState::Invalid) | (
                    ContactState::Valid,
                    ContactState::Rediscovering,
                ) => if new_out {
                    setup_msgs(new)
                } else {
                    seq![]
                },
                (ContactState::Valid, ContactState::Valid) => if new_out && !old_out {
                    setup_msgs(new)
                } else if new_out && old_out && path_changed {
                    setup_msgs(new) + teardown_msgs(old)
                } else if !new_out && old_out {
                    teardown_msgs(old)
                } else {
                    seq![]
                },
                (ContactState::Invalid, ContactState::Valid) => (if new_out {
                    teardown_msgs(old)
                } else {
                    seq![]
                }) + (if old_out && path_changed {
                    teardown_msgs(new)
                } else {
                    seq![]
                }),
                _ => seq![],
            }
        },
        _ => seq![],
    }
}

/// The contacts of the event carry the paths that the decision inspects.
pub open spec fn contact_event_has_paths(e: ContactEvent) -> bool {
    match e {
        ContactEvent::New(c) => c.path.is_some(),
        ContactEvent::Removed(c) => c.path.is_some(),
        ContactEvent::Updated { new, old } => new.path.is_some() && old.path.is_some(),
        _ => true,
    }
}

/// The forwarding entry for a path received from another node: `in_path` without its
/// first node is the outgoing path, whose first node is the next hop.
pub open spec fn forwarding_entry(in_path: Seq<NodeId>, next_hop: UnderlayNeighborId) -> PathIdEntry {
    PathIdEntry::Forward(
        PathIdForwardingEntry {
            in_path_id: path_hash(in_path),
            out_path_id: path_hash(in_path.drop_first()),
            next_hop,
        },
    )
}

/// The externally added paths after registering `in_path` at time `now`: nothing changes
/// if the next hop is not an underlay neighbor; a known path is only marked as seen.
pub open spec fn registered(
    paths: Map<PathId, Entry>,
    in_path: Seq<NodeId>,
    uln_table: Map<NodeId, UnderlayNeighborId>,
    now: Micros,
) -> Map<PathId, Entry> {
    let id = path_hash(in_path);
    if !uln_table.contains_key(in_path[1]) {
        paths
    } else if paths.contains_key(id) {
        paths.insert(id, Entry { last_seen: now, ..paths[id] })
    } else {
        paths.insert(
            id,
            Entry {
                path_id_entry: forwarding_entry(in_path, uln_table[in_path[1]]),
                via: uln_table[in_path[1]],
                last_seen: now,
            },
        )
    }
}

/// The forwarding-table updates of registering `in_path`.
pub open spec fn register_updates(
    paths: Map<PathId, Entry>,
    in_path: Seq<NodeId>,
    uln_table: Map<NodeId, UnderlayNeighborId>,
) -> Seq<PathIdTableUpdate> {
    if !uln_table.contains_key(in_path[1]) {
        seq![]
    } else if paths.contains_key(path_hash(in_path)) {
        seq![PathIdTableUpdate::Update(forwarding_entry(in_path, uln_table[in_path[1]]))]
    } else {
        seq![PathIdTableUpdate::Create(forwarding_entry(in_path, uln_table[in_path[1]]))]
    }
}

/// The actions are exactly the forwarding-table updates, in order.
pub open spec fn updates_exactly(actions: Seq<EPMAction>, us: Seq<PathIdTableUpdate>) -> bool {
    actions.len() == us.len() && forall|i: int| 0 <= i < us.len() ==> #[trigger] updates(actions[i], us[i])
}

/// The path id that a removing action removes (0 for other actions).
pub open spec fn removed_id(a: EPMAction) -> PathId {
    match a {
        EPMAction::UpdateFwdTable(PathIdTableUpdate::Remove(id)) => id,
        _ => 0,
    }
}

/// The path ids that the actions remove.
pub open spec fn removed_ids(actions: Seq<EPMAction>) -> Seq<PathId> {
    actions.map_values(|a: EPMAction| removed_id(a))
}

/// The actions remove exactly the ids of `removed` from the forwarding table, each once.
pub open spec fn removes_exactly(actions: Seq<EPMAction>, removed: Set<PathId>) -> bool {
    &&& forall|i: int| 0 <= i < actions.len() ==> (#[trigger] actions[i] matches EPMAction::UpdateFwdTable(
        PathIdTableUpdate::Remove(_),
    ))
    &&& removed_ids(actions).no_duplicates()
    &&& removed_ids(actions).to_set() == removed
}

/// How long ago `then` was, at `now` (zero for a time in the future).
pub open spec fn elapsed(now: Micros, then: Micros) -> int {
    if now >= then {
        now - then
    } else {
        0
    }
}

/// The ids of the externally added paths that are at least `max_age` old at `now`.
pub open spec fn expired(paths: Map<PathId, Entry>, now: Micros, max_age: Micros) -> Set<PathId> {
    paths.dom().filter(|id: PathId| elapsed(now, paths[id].last_seen) >= max_age)
}

/// The ids of the externally added paths that go over the underlay neighbor.
pub open spec fn over_neighbor(paths: Map<PathId, Entry>, uln: UnderlayNeighborId) -> Set<PathId> {
    paths.dom().filter(|id: PathId| paths[id].via == uln)
}

/// The probes of a refresh: one along the path of each valid contact outside the vicinity.
pub open spec fn refresh_msgs(contacts: Seq<Contact>) -> Seq<(EPMMessage, Seq<NodeId>)>
    decreases contacts.len(),
{
    if contacts.len() == 0 {
        seq![]
    } else {
        let c = contacts.last();
        refresh_msgs(contacts.drop_last()) + if c.state == ContactState::Valid && outside_vicinity(c) {
            seq![(EPMMessage::ProbeReq, c.path_view().unwrap())]
        } else {
            seq![]
        }
    }
}

/// Valid contacts have an active path.
pub open spec fn valid_have_paths(contacts: Seq<Contact>) -> bool {
    forall|i: int| 0 <= i < contacts.len() ==> (#[trigger] contacts[i]).state == ContactState::Valid ==> contacts[i].path.is_some()
}

/// The use case of explicit path management.
///
/// Sets up and tears down paths for valid contacts outside the vicinity, refreshes them,
/// installs the paths that other nodes set up through this node and removes them when
/// they get old or their underlay neighbor goes down.
#[derive(Debug)]
pub struct ExplicitPathManagement {
    state: EPMState,
    config: EPMConfig,
}

impl ExplicitPathManagement {
    /// The state of the use case.
    pub closed spec fn state_view(&self) -> EPMState {
        self.state
    }

    /// The configuration of the use case.
    pub closed spec fn config_view(&self) -> EPMConfig {
        self.config
    }

    /// The externally added paths while running.
    pub open spec fn paths(&self) -> Option<Map<PathId, Entry>> {
        match self.state_view() {
            EPMState::Running { externally_added_paths, .. } => Some(externally_added_paths@),
            _ => None,
        }
    }

    /// The state is the running state with the same timers.
    pub open spec fn same_timers(a: EPMState, b: EPMState) -> bool {
        match (a, b) {
            (
                EPMState::Running { refresh_timer: r1, cleanup_timer: c1, .. },
                EPMState::Running { refresh_timer: r2, cleanup_timer: c2, .. },
            ) => r1 == r2 && c1 == c2,
            _ => a == b,
        }
    }

    /// Creates the use case in the initialized state.
    pub fn new(config: EPMConfig) -> (epm: Self)
        ensures
            epm.state_view() is Initialized,
            epm.config_view() == config,
    {
        ExplicitPathManagement { state: EPMState::Initialized, config }
    }

    /// The current state.
    pub fn state(&self) -> (s: &EPMState)
        ensures
            *s == self.state_view(),
    {
        &self.state
    }

    /// Starts the use case with the cleanup timer and, if refreshes are configured, the
    /// refresh timer that the runtime registered for it.
    pub fn start(&mut self, cleanup_timer: TimerId, refresh_timer: Option<TimerId>) -> (res: Result<(), EPMError>)
        ensures
            final(self).config_view() == old(self).config_view(),
            !(old(self).state_view() is Initialized) ==> res == Err::<(), _>(EPMError::AlreadyStarted)
                && final(self).state_view() == old(self).state_view(),
            old(self).state_view() is Initialized ==> res == Ok::<(), EPMError>(()) && (final(self).state_view() matches EPMState::Running {
                refresh_timer: r,
                cleanup_timer: c,
                externally_added_paths: p,
            } && r == refresh_timer && c == cleanup_timer && p@ == Map::<PathId, Entry>::empty()),
    {
        match self.state {
            EPMState::Initialized => {},
            _ => return Err(EPMError::AlreadyStarted),
        }
        self.state = EPMState::Running { refresh_timer, cleanup_timer, externally_added_paths: HashMap::new() };
        Ok(())
    }

    /// Decides the path setups and teardowns on a change of the routing table.
    pub fn handle_contact_event(&self, event: ContactEvent) -> (actions: Vec<EPMAction>)
        requires
            contact_event_has_paths(event),
        ensures
            sends_exactly(actions@, contact_event_msgs(event)),
    {
        let ghost e = event;
        let mut actions: Vec<EPMAction> = Vec::new();
        match event {
            ContactEvent::New(contact) => {
                if contact.path_len() > VICINITY_RADIUS {
                    Self::send_setup_req(contact, &mut actions);
                }
            },
            ContactEvent::Removed(contact) => {
                if contact.path_len() > VICINITY_RADIUS {
                    Self::send_teardown_req(contact, &mut actions);
                }
            },
            ContactEvent::Updated { new, old } => {
                let new_out = new.path_len() > VICINITY_RADIUS;
                let old_out = old.path_len() > VICINITY_RADIUS;
                let changed = !crate::domain::same_path(&old.path, &new.path);
                assert(changed == (new.path_view() != old.path_view()));
                match (new.state, old.state) {
                    (ContactState::Valid, ContactState::Invalid) | (ContactState::Valid, ContactState::Rediscovering) => {
                        if new_out {
                            Self::send_setup_req(new, &mut actions);
                        }
                    },
                    (ContactState::Valid, ContactState::Valid) => {
                        if new_out && !old_out {
                            Self::send_setup_req(new, &mut actions);
                        } else if new_out && old_out && changed {
                            Self::send_setup_req(new, &mut actions);
                            let ghost a1 = actions@;
                            Self::send_teardown_req(old, &mut actions);
                            proof {
                                lemma_sends_concat(a1, actions@, setup_msgs(new), teardown_msgs(old));
                            }
                        } else if !new_out && old_out {
                            Self::send_teardown_req(old, &mut actions);
                        }
                    },
                    (ContactState::Invalid, ContactState::Valid) => {
                        if new_out {
                            Self::send_teardown_req(old, &mut actions);
                        }
                        let ghost a1 = actions@;
                        assert(sends_exactly(a1, if new_out { teardown_msgs(e->old) } else { seq![] })) by {
                            if !new_out {
                                assert(a1.len() == 0);
                            } else {
                                assert(a1.skip(0) == a1);
                            }
                        }
                        if old_out && changed {
                            Self::send_teardown_req(new, &mut actions);
                            proof {
                                lemma_sends_concat(a1, actions@, if new_out { teardown_msgs(e->old) } else { seq![] }, teardown_msgs(e->new));
                            }
                        } else {
                            assert(if new_out { teardown_msgs(e->old) } else { seq![] } + seq![] =~= if new_out { teardown_msgs(e->old) } else { seq![] });
                        }
                    },
                    _ => {},
                }
            },
            _ => {},
        }
        assert(actions@.skip(0) == actions@);
        actions
    }

    /// Installs the forwarding entry of a path that another node sets up through this
    /// node; `in_path` is the remaining path, starting at this node.
    ///
    /// Nothing happens unless the use case is running and the next hop is an underlay
    /// neighbor; a known path is only marked as seen.
    pub fn register_path(&mut self, in_path: &Vec<NodeId>, uln_table: &HashMap<NodeId, UnderlayNeighborId>, now: Micros) -> (actions: Vec<EPMAction>)
        requires
            old(self).paths() is Some ==> in_path@.len() >= 2,
        ensures
            final(self).config_view() == old(self).config_view(),
            Self::same_timers(final(self).state_view(), old(self).state_view()),
            old(self).paths() is None ==> actions@.len() == 0 && final(self).state_view() == old(self).state_view(),
            old(self).paths() matches Some(p) ==> final(self).paths() == Some(registered(p, in_path@, uln_table@, now))
                && updates_exactly(actions@, register_updates(p, in_path@, uln_table@)),
    {
        let in_path_id = self.config.hasher.hash(in_path);
        let paths = match &mut self.state {
            EPMState::Running { externally_added_paths, .. } => externally_added_paths,
            _ => return Vec::new(),
        };
        let out_path = skip_first(in_path);
        let next_hop = match uln_table.get(&out_path[0]) {
            Some(h) => *h,
            None => return Vec::new(),
        };
        let out_path_id = self.config.hasher.hash(&out_path);
        let entry = PathIdEntry::Forward(PathIdForwardingEntry { in_path_id, out_path_id, next_hop });
        let mut actions: Vec<EPMAction> = Vec::new();
        match paths.get(&in_path_id) {
            Some(existing) => {
                let updated = Entry { last_seen: now, ..*existing };
                paths.insert(in_path_id, updated);
                actions.push(EPMAction::UpdateFwdTable(PathIdTableUpdate::Update(entry)));
            },
            None => {
                paths.insert(in_path_id, Entry { path_id_entry: entry, via: next_hop, last_seen: now });
                actions.push(EPMAction::UpdateFwdTable(PathIdTableUpdate::Create(entry)));
            },
        }
        actions
    }

    /// Removes the externally added paths that were not seen for `max_age` (at `now`).
    pub fn perform_cleanup(&mut self, now: Micros) -> (actions: Vec<EPMAction>)
        ensures
            final(self).config_view() == old(self).config_view(),
            Self::same_timers(final(self).state_view(), old(self).state_view()),
            old(self).paths() is None ==> actions@.len() == 0 && final(self).state_view() == old(self).state_view(),
            old(self).paths() matches Some(p) ==> ({
                let gone = expired(p, now, old(self).config_view().max_age);
                &&& final(self).paths() == Some(p.remove_keys(gone))
                &&& removes_exactly(actions@, gone)
            }),
    {
        let max_age = self.config.max_age;
        let paths = match &mut self.state {
            EPMState::Running { externally_added_paths, .. } => externally_added_paths,
            _ => return Vec::new(),
        };
        let ghost p = paths@;
        let ids = expired_ids(paths, now, max_age);
        let mut actions: Vec<EPMAction> = Vec::new();
        assert(paths@ == p);
        assert(actions@.len() == 0);
        remove_ids(paths, &ids, &mut actions);
        assert(forall|k: PathId| #[trigger] paths@.contains_key(k) <==> p.contains_key(k) && !ids@.contains(k));
        assert(removed_ids(actions@).no_duplicates());
        assert(forall|k: PathId| removed_ids(actions@).contains(k) <==> p.contains_key(k) && ids@.contains(k));
        proof {
            let gone = expired(p, now, max_age);
            assert(paths@ =~= p.remove_keys(gone));
            assert forall|k: PathId| removed_ids(actions@).to_set().contains(k) <==> gone.contains(k) by {
                assert(removed_ids(actions@).to_set().contains(k) <==> removed_ids(actions@).contains(k));
                assert(removed_ids(actions@).contains(k) <==> (p.contains_key(k) && ids@.contains(k)));
                assert(ids@.contains(k) <==> gone.contains(k));
            }
            assert(removed_ids(actions@).to_set() =~= gone);
        }
        actions
    }

    /// Removes the externally added paths that go over the underlay neighbor (which went down).
    pub fn invalidate_all_over_interfaces(&mut self, affected_neighbor: &UnderlayNeighborId) -> (actions: Vec<EPMAction>)
        ensures
            final(self).config_view() == old(self).config_view(),
            Self::same_timers(final(self).state_view(), old(self).state_view()),
            old(self).paths() is None ==> actions@.len() == 0 && final(self).state_view() == old(self).state_view(),
            old(self).paths() matches Some(p) ==> ({
                let gone = over_neighbor(p, *affected_neighbor);
                &&& final(self).paths() == Some(p.remove_keys(gone))
                &&& removes_exactly(actions@, gone)
            }),
    {
        let paths = match &mut self.state {
            EPMState::Running { externally_added_paths, .. } => externally_added_paths,
            _ => return Vec::new(),
        };
        let ghost p = paths@;
        let ids = ids_via(paths, *affected_neighbor);
        let mut actions: Vec<EPMAction> = Vec::new();
        assert(paths@ == p);
        assert(actions@.len() == 0);
        remove_ids(paths, &ids, &mut actions);
        assert(forall|k: PathId| #[trigger] paths@.contains_key(k) <==> p.contains_key(k) && !ids@.contains(k));
        assert(removed_ids(actions@).no_duplicates());
        assert(forall|k: PathId| removed_ids(actions@).contains(k) <==> p.contains_key(k) && ids@.contains(k));
        proof {
            let gone = over_neighbor(p, *affected_neighbor);
            assert(paths@ =~= p.remove_keys(gone));
            assert forall|k: PathId| removed_ids(actions@).to_set().contains(k) <==> gone.contains(k) by {
                assert(removed_ids(actions@).to_set().contains(k) <==> removed_ids(actions@).contains(k));
                assert(removed_ids(actions@).contains(k) <==> (p.contains_key(k) && ids@.contains(k)));
                assert(ids@.contains(k) <==> gone.contains(k));
            }
            assert(removed_ids(actions@).to_set() =~= gone);
        }
        actions
    }

    /// Probes the path of every valid contact outside the vicinity, which refreshes the
    /// path's entries at the nodes along it.
    pub fn perform_refresh(&self, contacts: &Vec<Contact>) -> (actions: Vec<EPMAction>)
        requires
            valid_have_paths(contacts@),
        ensures
            sends_exactly(actions@, refresh_msgs(contacts@)),
    {
        let mut actions: Vec<EPMAction> = Vec::new();
        let mut i: usize = 0;
        while i < contacts.len()
            invariant
                i <= contacts.len(),
                valid_have_paths(contacts@),
                sends_exactly(actions@, refresh_msgs(contacts@.take(i as int))),
            decreases contacts.len() - i,
        {
            let contact = &contacts[i];
            let ghost before = actions@;
            assert(contacts@.take(i + 1).drop_last() == contacts@.take(i as int));
            if contact.is_valid() && contact.path_len() > VICINITY_RADIUS {
                let path = match &contact.path {
                    Some(p) => copy_nodes(p),
                    None => Vec::new(),
                };
                actions.push(EPMAction::Send(EPMMessage::ProbeReq, path));
                assert forall|j: int| 0 <= j < refresh_msgs(contacts@.take(i + 1)).len() implies #[trigger] sends(
                    actions@[j],
                    refresh_msgs(contacts@.take(i + 1))[j].0,
                    refresh_msgs(contacts@.take(i + 1))[j].1,
                ) by {
                    if j < before.len() {
                        assert(sends(before[j], refresh_msgs(contacts@.take(i as int))[j].0, refresh_msgs(contacts@.take(i as int))[j].1));
                    }
                }
            } else {
                assert(refresh_msgs(contacts@.take(i + 1)) =~= refresh_msgs(contacts@.take(i as int)));
            }
            i = i + 1;
        }
        assert(contacts@.take(contacts.len() as int) == contacts@);
        actions
    }

    /// Removes the entry of a path torn down by another node; `in_path` is the remaining
    /// path, starting at this node.
    pub fn teardown_path(&mut self, in_path: &Vec<NodeId>) -> (actions: Vec<EPMAction>)
        ensures
            final(self).config_view() == old(self).config_view(),
            Self::same_timers(final(self).state_view(), old(self).state_view()),
            old(self).paths() is None ==> actions@.len() == 0 && final(self).state_view() == old(self).state_view(),
            old(self).paths() matches Some(p) ==> final(self).paths() == Some(p.remove(path_hash(in_path@)))
                && updates_exactly(actions@, seq![PathIdTableUpdate::Remove(path_hash(in_path@))]),
    {
        let in_path_id = self.config.hasher.hash(in_path);
        let paths = match &mut self.state {
            EPMState::Running { externally_added_paths, .. } => externally_added_paths,
            _ => return Vec::new(),
        };
        paths.remove(&in_path_id);
        let mut actions: Vec<EPMAction> = Vec::new();
        actions.push(EPMAction::UpdateFwdTable(PathIdTableUpdate::Remove(in_path_id)));
        actions
    }

    /// Sets the cleanup timer to the one the runtime registered (while running).
    pub fn create_new_cleanup_timer(&mut self, timer: TimerId)
        ensures
            final(self).config_view() == old(self).config_view(),
            final(self).paths() == old(self).paths(),
            match (old(self).state_view(), final(self).state_view()) {
                (EPMState::Running { refresh_timer: r1, .. }, EPMState::Running { refresh_timer: r2, cleanup_timer: c2, .. }) => r1
                    == r2 && c2 == timer,
                (o, f) => o == f,
            },
    {
        if let EPMState::Running { cleanup_timer, .. } = &mut self.state {
            *cleanup_timer = timer;
        }
    }

    /// Sets the refresh timer to the one the runtime registered, or to none (while running).
    pub fn create_new_refresh_timer(&mut self, timer: Option<TimerId>)
        ensures
            final(self).config_view() == old(self).config_view(),
            final(self).paths() == old(self).paths(),
            match (old(self).state_view(), final(self).state_view()) {
                (EPMState::Running { cleanup_timer: c1, .. }, EPMState::Running { refresh_timer: r2, cleanup_timer: c2, .. }) => c1
                    == c2 && r2 == timer,
                (o, f) => o == f,
            },
    {
        if let EPMState::Running { refresh_timer, .. } = &mut self.state {
            *refresh_timer = timer;
        }
    }

    /// Handles a fired timer: the cleanup timer triggers a cleanup, the refresh timer a
    /// refresh; each time the runtime is asked to register the timer anew.
    pub fn handle_timer(&mut self, timer: TimerId, now: Micros, contacts: &Vec<Contact>) -> (actions: Vec<EPMAction>)
        requires
            valid_have_paths(contacts@),
        ensures
            final(self).config_view() == old(self).config_view(),
            Self::same_timers(final(self).state_view(), old(self).state_view()),
            match old(self).state_view() {
                EPMState::Running { refresh_timer, cleanup_timer, externally_added_paths } => if timer == cleanup_timer {
                    let gone = expired(externally_added_paths@, now, old(self).config_view().max_age);
                    &&& final(self).paths() == Some(externally_added_paths@.remove_keys(gone))
                    &&& actions@.len() >= 1
                    &&& removes_exactly(actions@.drop_last(), gone)
                    &&& actions@.last() matches EPMAction::RegisterCleanupTimer(i) && i == old(self).config_view().cleanup_interval
                } else if refresh_timer == Some(timer) {
                    &&& final(self).paths() == old(self).paths()
                    &&& match old(self).config_view().refresh_interval {
                        Some(i) => actions@.len() >= 1 && sends_exactly(actions@.drop_last(), refresh_msgs(contacts@))
                            && (actions@.last() matches EPMAction::RegisterRefreshTimer(j) && j == i),
                        None => sends_exactly(actions@, refresh_msgs(contacts@)),
                    }
                } else {
                    actions@.len() == 0 && final(self).state_view() == old(self).state_view()
                },
                _ => actions@.len() == 0 && final(self).state_view() == old(self).state_view(),
            },
    {
        let (is_cleanup, is_refresh) = match &self.state {
            EPMState::Running { refresh_timer, cleanup_timer, .. } => (
                timer == *cleanup_timer,
                match refresh_timer {
                    Some(r) => *r == timer,
                    None => false,
                },
            ),
            _ => (false, false),
        };
        if is_cleanup {
            let mut actions = self.perform_cleanup(now);
            let ghost removed = actions@;
            actions.push(EPMAction::RegisterCleanupTimer(self.config.cleanup_interval));
            assert(actions@.drop_last() =~= removed);
            actions
        } else if is_refresh {
            let mut actions = self.perform_refresh(contacts);
            if let Some(interval) = self.config.refresh_interval {
                let ghost probes = actions@;
                actions.push(EPMAction::RegisterRefreshTimer(interval));
                assert(actions@.drop_last() =~= probes);
            }
            actions
        } else {
            Vec::new()
        }
    }

    /// Handles a path setup request through this node (`remaining` is the part of its
    /// source route that starts at this node): the path is registered, and the request
    /// is consumed once it would enter the vicinity, whose paths are precomputed.
    pub fn handle_path_setup_req(&mut self, remaining: &Vec<NodeId>, uln_table: &HashMap<NodeId, UnderlayNeighborId>, now: Micros) -> (res: (HandlingResult, Vec<EPMAction>))
        requires
            old(self).paths() is Some ==> remaining@.len() > VICINITY_RADIUS,
        ensures
            final(self).config_view() == old(self).config_view(),
            Self::same_timers(final(self).state_view(), old(self).state_view()),
            old(self).paths() is None ==> res.0 == HandlingResult::NotHandled && res.1@.len() == 0
                && final(self).state_view() == old(self).state_view(),
            old(self).paths() matches Some(p) ==> {
                &&& final(self).paths() == Some(registered(p, remaining@, uln_table@, now))
                &&& updates_exactly(res.1@, register_updates(p, remaining@, uln_table@))
                &&& res.0 == if remaining@.len() - 1 <= VICINITY_RADIUS {
                    HandlingResult::Handled
                } else {
                    HandlingResult::NotHandled
                }
            },
    {
        match self.state {
            EPMState::Running { .. } => {},
            _ => return (HandlingResult::NotHandled, Vec::new()),
        }
        let actions = self.register_path(remaining, uln_table, now);
        let processed_hops = remaining.len() - 1;
        if processed_hops <= VICINITY_RADIUS {
            (HandlingResult::Handled, actions)
        } else {
            (HandlingResult::NotHandled, actions)
        }
    }

    /// Handles a path teardown request through this node. The entry stays (others may use
    /// the same path; soft state removes it); the request is consumed once it would enter
    /// the vicinity.
    pub fn handle_path_teardown_req(&self, remaining: &Vec<NodeId>) -> (res: HandlingResult)
        requires
            self.paths() is Some ==> remaining@.len() > VICINITY_RADIUS,
        ensures
            res == if self.paths() is Some && remaining@.len() - 1 <= VICINITY_RADIUS {
                HandlingResult::Handled
            } else {
                HandlingResult::NotHandled
            },
    {
        match self.state {
            EPMState::Running { .. } => {},
            _ => return HandlingResult::NotHandled,
        }
        let processed_hops = remaining.len() - 1;
        if processed_hops <= VICINITY_RADIUS {
            HandlingResult::Handled
        } else {
            HandlingResult::NotHandled
        }
    }

    /// Handles a probe request through this node: outside the vicinity it refreshes (or
    /// installs) the path's entry; it is never consumed.
    pub fn handle_probe_req(&mut self, remaining: &Vec<NodeId>, uln_table: &HashMap<NodeId, UnderlayNeighborId>, now: Micros) -> (res: (HandlingResult, Vec<EPMAction>))
        ensures
            res.0 == HandlingResult::NotHandled,
            final(self).config_view() == old(self).config_view(),
            Self::same_timers(final(self).state_view(), old(self).state_view()),
            old(self).paths() is None || remaining@.len() <= VICINITY_RADIUS ==> res.1@.len() == 0
                && final(self).state_view() == old(self).state_view(),
            old(self).paths() is Some && remaining@.len() > VICINITY_RADIUS ==> {
                &&& final(self).paths() == Some(registered(old(self).paths().unwrap(), remaining@, uln_table@, now))
                &&& updates_exactly(res.1@, register_updates(old(self).paths().unwrap(), remaining@, uln_table@))
            },
    {
        match self.state {
            EPMState::Running { .. } => {},
            _ => return (HandlingResult::NotHandled, Vec::new()),
        }
        if remaining.len() <= VICINITY_RADIUS {
            return (HandlingResult::NotHandled, Vec::new());
        }
        let actions = self.register_path(remaining, uln_table, now);
        (HandlingResult::NotHandled, actions)
    }

    fn send_setup_req(contact: Contact, actions: &mut Vec<EPMAction>)
        requires
            contact.state == ContactState::Valid ==> contact.path.is_some(),
        ensures
            sends_exactly(final(actions)@.skip(old(actions)@.len() as int), setup_msgs(contact)),
            final(actions)@.take(old(actions)@.len() as int) == old(actions)@,
            final(actions)@.len() >= old(actions)@.len(),
    {
        // just in case the contact has been invalidated meanwhile
        if !contact.is_valid() {
            assert(actions@.skip(old(actions)@.len() as int) =~= seq![]);
            assert(actions@.take(old(actions)@.len() as int) =~= old(actions)@);
            return;
        }
        let path = contact.path.unwrap();
        let ghost p = path@;
        actions.push(EPMAction::Send(EPMMessage::PathSetupReq, path));
        assert(actions@.skip(old(actions)@.len() as int) =~= seq![actions@[old(actions)@.len() as int]]);
        assert(actions@.take(old(actions)@.len() as int) =~= old(actions)@);
    }

    fn send_teardown_req(contact: Contact, actions: &mut Vec<EPMAction>)
        ensures
            sends_exactly(final(actions)@.skip(old(actions)@.len() as int), teardown_msgs(contact)),
            final(actions)@.take(old(actions)@.len() as int) == old(actions)@,
            final(actions)@.len() >= old(actions)@.len(),
    {
        match contact.path {
            Some(path) => {
                actions.push(EPMAction::Send(EPMMessage::PathTeardownReq, path));
                assert(actions@.skip(old(actions)@.len() as int) =~= seq![actions@[old(actions)@.len() as int]]);
            },
            None => {
                assert(actions@.skip(old(actions)@.len() as int) =~= seq![]);
            },
        }
        assert(actions@.take(old(actions)@.len() as int) =~= old(actions)@);
    }
}

/// The ids of the paths that are at least `max_age` old at `now`.
fn expired_ids(paths: &HashMap<PathId, Entry>, now: Micros, max_age: Micros) -> (ids: Vec<PathId>)
    ensures
        forall|id: PathId| ids@.contains(id) <==> expired(paths@, now, max_age).contains(id),
{
    let mut ids: Vec<PathId> = Vec::new();
    for (id, entry) in it: paths.iter()
        invariant
            forall|j: int| 0 <= j < ids.len() ==> expired(paths@, now, max_age).contains(#[trigger] ids@[j]),
            forall|i: int| 0 <= i < it.index() ==> elapsed(now, (#[trigger] it.seq()[i]).1.last_seen) >= max_age ==> ids@.contains(*it.seq()[i].0),
    {
        let age: Micros = if now >= entry.last_seen { now - entry.last_seen } else { 0 };
        if age >= max_age {
            assert(paths@.contains_key(*id) && paths@[*id] == *entry);
            ids.push(*id);
            assert(ids@[ids.len() - 1] == *id);
        }
    }
    assert(forall|id: PathId| expired(paths@, now, max_age).contains(id) ==> ids@.contains(id));
    ids
}

/// The ids of the paths that go over the underlay neighbor.
fn ids_via(paths: &HashMap<PathId, Entry>, uln: UnderlayNeighborId) -> (ids: Vec<PathId>)
    ensures
        forall|id: PathId| ids@.contains(id) <==> over_neighbor(paths@, uln).contains(id),
{
    let mut ids: Vec<PathId> = Vec::new();
    for (id, entry) in it: paths.iter()
        invariant
            forall|j: int| 0 <= j < ids.len() ==> over_neighbor(paths@, uln).contains(#[trigger] ids@[j]),
            forall|i: int| 0 <= i < it.index() ==> (#[trigger] it.seq()[i]).1.via == uln ==> ids@.contains(*it.seq()[i].0),
    {
        if entry.via == uln {
            assert(paths@.contains_key(*id) && paths@[*id] == *entry);
            ids.push(*id);
            assert(ids@[ids.len() - 1] == *id);
        }
    }
    assert(forall|id: PathId| over_neighbor(paths@, uln).contains(id) ==> ids@.contains(id));
    ids
}

/// Removes the paths with the ids and appends a forwarding-table removal for each path
/// that was present.
fn remove_ids(paths: &mut HashMap<PathId, Entry>, ids: &Vec<PathId>, actions: &mut Vec<EPMAction>)
    requires
        old(actions)@.len() == 0,
    ensures
        forall|k: PathId| #[trigger] final(paths)@.contains_key(k) <==> old(paths)@.contains_key(k) && !ids@.contains(k),
        forall|k: PathId| #[trigger] final(paths)@.contains_key(k) ==> final(paths)@[k] == old(paths)@[k],
        forall|i: int| 0 <= i < final(actions)@.len() ==> (#[trigger] final(actions)@[i] matches EPMAction::UpdateFwdTable(
            PathIdTableUpdate::Remove(_),
        )),
        removed_ids(final(actions)@).no_duplicates(),
        forall|k: PathId| #[trigger] removed_ids(final(actions)@).contains(k) <==> old(paths)@.contains_key(k)
            && ids@.contains(k),
{
    let mut i: usize = 0;
    while i < ids.len()
        invariant
            i <= ids.len(),
            forall|k: PathId| #[trigger] paths@.contains_key(k) <==> old(paths)@.contains_key(k) && !ids@.take(i as int).contains(k),
            forall|k: PathId| #[trigger] paths@.contains_key(k) ==> paths@[k] == old(paths)@[k],
            forall|j: int| 0 <= j < actions@.len() ==> (#[trigger] actions@[j] matches EPMAction::UpdateFwdTable(
                PathIdTableUpdate::Remove(_),
            )),
            removed_ids(actions@).no_duplicates(),
            forall|k: PathId| #[trigger] removed_ids(actions@).contains(k) <==> old(paths)@.contains_key(k)
                && ids@.take(i as int).contains(k),
        decreases ids.len() - i,
    {
        let id = ids[i];
        let ghost before = removed_ids(actions@);
        assert(ids@.take(i + 1) == ids@.take(i as int).push(id));
        let ghost was_present = paths@.contains_key(id);
        if paths.remove(&id).is_some() {
            actions.push(EPMAction::UpdateFwdTable(PathIdTableUpdate::Remove(id)));
            assert(removed_ids(actions@) =~= before.push(id));
            assert(!before.contains(id));
            assert forall|a: int, b: int| 0 <= a < b < before.len() + 1 implies before.push(id)[a] != before.push(id)[b] by {
                if b == before.len() {
                    if before.push(id)[a] == id {
                        assert(before[a] == id);
                    }
                }
            }
            assert forall|k: PathId| before.push(id).contains(k) <==> (before.contains(k) || k == id) by {
                if k == id {
                    assert(before.push(id)[before.len() as int] == id);
                }
                if before.contains(k) {
                    let j = choose|j: int| 0 <= j < before.len() && before[j] == k;
                    assert(before.push(id)[j] == k);
                }
            }
        } else {
            assert(removed_ids(actions@) =~= before);
        }
        assert forall|k: PathId| ids@.take(i + 1).contains(k) <==> (ids@.take(i as int).contains(k) || k == id) by {
            if k == id {
                assert(ids@.take(i + 1)[i as int] == id);
            }
            if ids@.take(i as int).contains(k) {
                let j = choose|j: int| 0 <= j < i && ids@.take(i as int)[j] == k;
                assert(ids@.take(i + 1)[j] == k);
            }
        }
        i = i + 1;
    }
    assert(ids@.take(ids.len() as int) == ids@);
}

/// A copy of the path.
fn copy_nodes(path: &Vec<NodeId>) -> (copy: Vec<NodeId>)
    ensures
        copy@ == path@,
{
    let mut copy: Vec<NodeId> = Vec::new();
    let mut i: usize = 0;
    while i < path.len()
        invariant
            i <= path.len(),
            copy@ == path@.take(i as int),
        decreases path.len() - i,
    {
        copy.push(path[i]);
        i = i + 1;
    }
    assert(path@.take(path.len() as int) == path@);
    copy
}

/// The path without its first node.
fn skip_first(path: &Vec<NodeId>) -> (rest: Vec<NodeId>)
    requires
        path@.len() >= 1,
    ensures
        rest@ == path@.drop_first(),
{
    let mut rest: Vec<NodeId> = Vec::new();
    let mut i: usize = 1;
    while i < path.len()
        invariant
            1 <= i <= path.len(),
            rest@ == path@.subrange(1, i as int),
        decreases path.len() - i,
    {
        rest.push(path[i]);
        i = i + 1;
    }
    rest
}

/// Sending the messages `m1` and then the messages `m2` sends `m1 + m2`.
proof fn lemma_sends_concat(
    a1: Seq<EPMAction>,
    a2: Seq<EPMAction>,
    m1: Seq<(EPMMessage, Seq<NodeId>)>,
    m2: Seq<(EPMMessage, Seq<NodeId>)>,
)
    requires
        sends_exactly(a1, m1),
        a1.len() <= a2.len(),
        a2.take(a1.len() as int) == a1,
        sends_exactly(a2.skip(a1.len() as int), m2),
    ensures
        sends_exactly(a2, m1 + m2),
{
    assert forall|i: int| 0 <= i < (m1 + m2).len() implies #[trigger] sends(a2[i], (m1 + m2)[i].0, (m1 + m2)[i].1) by {
        if i < m1.len() {
            assert(a2[i] == a2.take(a1.len() as int)[i]);
            assert(sends(a1[i], m1[i].0, m1[i].1));
        } else {
            let k = i - m1.len();
            assert(a2[i] == a2.skip(a1.len() as int)[k]);
            assert(sends(a2.skip(a1.len() as int)[k], m2[k].0, m2[k].1));
        }
    }
}

/// A path that another node set up through this node lives for the maximum age: a cleanup
/// before that keeps it, a cleanup at or after that removes it (unless it was seen again).
pub proof fn law_registered_path_lifetime(
    paths: Map<PathId, Entry>,
    in_path: Seq<NodeId>,
    uln_table: Map<NodeId, UnderlayNeighborId>,
    now: Micros,
    later: Micros,
    max_age: Micros,
)
    requires
        in_path.len() >= 2,
        uln_table.contains_key(in_path[1]),
        now <= later,
    ensures
        registered(paths, in_path, uln_table, now).contains_key(path_hash(in_path)),
        later < now + max_age ==> !expired(registered(paths, in_path, uln_table, now), later, max_age).contains(path_hash(in_path)),
        later >= now + max_age ==> expired(registered(paths, in_path, uln_table, now), later, max_age).contains(path_hash(in_path)),
{
    let r = registered(paths, in_path, uln_table, now);
    assert(r[path_hash(in_path)].last_seen == now);
}

/// Explicit paths follow the border of the vicinity as a valid contact moves: a path that
/// leaves the vicinity is set up, one that comes back into it is torn down, one that changes
/// outside of it is set up anew and the old one torn down, and paths inside it are left
/// alone. `actions` are those of [ExplicitPathManagement::handle_contact_event].
pub proof fn law_valid_contact_paths_follow_vicinity(new: Contact, old: Contact, actions: Seq<EPMAction>)
    requires
        new.state == ContactState::Valid,
        old.state == ContactState::Valid,
        new.path is Some,
        old.path is Some,
        sends_exactly(actions, contact_event_msgs(ContactEvent::Updated { new, old })),
    ensures
        new.path_size() <= VICINITY_RADIUS && old.path_size() > VICINITY_RADIUS ==> actions.len() == 1 && sends(
            actions[0],
            EPMMessage::PathTeardownReq,
            old.path->0@,
        ),
        new.path_size() > VICINITY_RADIUS && old.path_size() <= VICINITY_RADIUS ==> actions.len() == 1 && sends(
            actions[0],
            EPMMessage::PathSetupReq,
            new.path->0@,
        ),
        new.path_size() > VICINITY_RADIUS && old.path_size() > VICINITY_RADIUS && new.path->0@ != old.path->0@ ==> actions.len()
            == 2 && sends(actions[0], EPMMessage::PathSetupReq, new.path->0@) && sends(
            actions[1],
            EPMMessage::PathTeardownReq,
            old.path->0@,
        ),
        new.path_size() > VICINITY_RADIUS && old.path_size() > VICINITY_RADIUS && new.path->0@ == old.path->0@ ==> actions.len()
            == 0,
        new.path_size() <= VICINITY_RADIUS && old.path_size() <= VICINITY_RADIUS ==> actions.len() == 0,
{
    let msgs = contact_event_msgs(ContactEvent::Updated { new, old });
    if actions.len() > 0 {
        assert(sends(actions[0], msgs[0].0, msgs[0].1));
    }
    if actions.len() > 1 {
        assert(sends(actions[1], msgs[1].0, msgs[1].1));
    }
}

/// A new contact outside the vicinity gets an explicit path when it is valid, and a removed
/// one outside the vicinity has its path torn down; contacts inside the vicinity get none.
pub proof fn law_new_and_removed_contacts(c: Contact, added: Seq<EPMAction>, removed: Seq<EPMAction>)
    requires
        c.path is Some,
        sends_exactly(added, contact_event_msgs(ContactEvent::New(c))),
        sends_exactly(removed, contact_event_msgs(ContactEvent::Removed(c))),
    ensures
        c.path_size() > VICINITY_RADIUS && c.state == ContactState::Valid ==> added.len() == 1 && sends(
            added[0],
            EPMMessage::PathSetupReq,
            c.path->0@,
        ),
        c.path_size() > VICINITY_RADIUS ==> removed.len() == 1 && sends(removed[0], EPMMessage::PathTeardownReq, c.path->0@),
        c.path_size() <= VICINITY_RADIUS ==> added.len() == 0 && removed.len() == 0,
{
    let m1 = contact_event_msgs(ContactEvent::New(c));
    let m2 = contact_event_msgs(ContactEvent::Removed(c));
    if added.len() > 0 {
        assert(sends(added[0], m1[0].0, m1[0].1));
    }
    if removed.len() > 0 {
        assert(sends(removed[0], m2[0].0, m2[0].1));
    }
}

} // verus!
