//! Bookkeeping of the exponential backoff of contacts: per node one backoff state, the
//! timers that guard it and the nonces of the messages in flight to it.

use std::collections::HashMap;

use vstd::prelude::*;
use vstd::std_specs::iter::IteratorSpec;

use crate::domain::{NodeId, Nonce, TimerId};
use crate::utils::ExponentialBackoff;

pub mod errors;

verus! {

broadcast use {vstd::std_specs::hash::group_hash_axioms, vstd::seq_lib::group_seq_properties};

/// Data structure to keep track of the exponential backoff of contacts.
///
/// Per node multiple nonces of messages in flight and a single timer can be present.
#[derive(Debug)]
pub struct BackoffMap {
    node_to_state: HashMap<NodeId, ExponentialBackoff>,
    timer_to_node: HashMap<TimerId, NodeId>,
    nonce_to_id: HashMap<Nonce, NodeId>,
}

impl Default for BackoffMap {
    fn default() -> (m: Self)
        ensures
            m.states() == Map::<NodeId, ExponentialBackoff>::empty(),
            m.timers() == Map::<TimerId, NodeId>::empty(),
            m.nonces() == Map::<Nonce, NodeId>::empty(),
    {
        BackoffMap { node_to_state: HashMap::new(), timer_to_node: HashMap::new(), nonce_to_id: HashMap::new() }
    }
}

/// What is removed together with a tracked node: its backoff, its timer and its nonces.
pub type Removed = (ExponentialBackoff, TimerId, Vec<Nonce>);

impl BackoffMap {
    /// The backoff state of each tracked node.
    pub closed spec fn states(&self) -> Map<NodeId, ExponentialBackoff> {
        self.node_to_state@
    }

    /// The node that each timer belongs to.
    pub closed spec fn timers(&self) -> Map<TimerId, NodeId> {
        self.timer_to_node@
    }

    /// The node that each nonce belongs to.
    pub closed spec fn nonces(&self) -> Map<Nonce, NodeId> {
        self.nonce_to_id@
    }

    /// The timers of all nodes but `id`.
    pub open spec fn timers_without(timers: Map<TimerId, NodeId>, id: NodeId) -> Map<TimerId, NodeId> {
        timers.restrict(timers.dom().filter(|t: TimerId| timers[t] != id))
    }

    /// Inserts a tracked contact with its initial timer, nonce and backoff, and returns the
    /// backoff that the node had before. The timer replaces any timer the node had, so that
    /// a node has a single timer.
    pub fn insert(&mut self, key: (NodeId, TimerId, Nonce), value: ExponentialBackoff) -> (res: Result<
        Option<ExponentialBackoff>,
        errors::InsertionError,
    >)
        ensures
            old(self).timers().contains_key(key.1) ==> res == Err::<Option<ExponentialBackoff>, _>(
                errors::InsertionError::DuplicateTimer,
            ) && *final(self) == *old(self),
            !old(self).timers().contains_key(key.1) && old(self).nonces().contains_key(key.2) ==> res
                == Err::<Option<ExponentialBackoff>, _>(errors::InsertionError::DuplicateNonce)
                && *final(self) == *old(self),
            !old(self).timers().contains_key(key.1) && !old(self).nonces().contains_key(key.2) ==> {
                &&& res == Ok::<_, errors::InsertionError>(old(self).states().get(key.0))
                &&& final(self).states() == old(self).states().insert(key.0, value)
                &&& final(self).timers() == Self::timers_without(old(self).timers(), key.0).insert(key.1, key.0)
                &&& final(self).nonces() == old(self).nonces().insert(key.2, key.0)
            },
    {
        let (node_id, timer_id, nonce) = key;
        if self.timer_to_node.contains_key(&timer_id) {
            return Err(errors::InsertionError::DuplicateTimer);
        }
        if self.nonce_to_id.contains_key(&nonce) {
            return Err(errors::InsertionError::DuplicateNonce);
        }
        remove_keys_for(&mut self.timer_to_node, &node_id);
        self.timer_to_node.insert(timer_id, node_id);
        self.nonce_to_id.insert(nonce, node_id);
        Ok(self.node_to_state.insert(node_id, value))
    }

    /// Returns a mutable reference to the backoff registered for the node.
    pub fn get_mut(&mut self, id: &NodeId) -> (res: Option<&mut ExponentialBackoff>)
        ensures
            old(self).states().contains_key(*id) <==> res is Some,
            res matches Some(r) ==> *r == old(self).states()[*id] && final(self).states()
                == old(self).states().insert(*id, *final(r)),
            res is None ==> final(self).states() == old(self).states(),
            final(self).timers() == old(self).timers(),
            final(self).nonces() == old(self).nonces(),
    {
        match self.node_to_state.entry(*id) {
            std::collections::hash_map::Entry::Occupied(e) => Some(e.into_mut()),
            std::collections::hash_map::Entry::Vacant(_) => None,
        }
    }

    /// Returns the backoff registered for the node.
    pub fn get(&mut self, id: &NodeId) -> (res: Option<&ExponentialBackoff>)
        ensures
            res == match old(self).states().get(*id) {
                Some(b) => Some(&b),
                None => None,
            },
            *final(self) == *old(self),
    {
        self.node_to_state.get(id)
    }

    /// Returns the node that the nonce belongs to, if that node is tracked.
    pub fn get_node_for_nonce(&self, nonce: &Nonce) -> (res: Option<&NodeId>)
        ensures
            res == if self.nonces().contains_key(*nonce) && self.states().contains_key(
                self.nonces()[*nonce],
            ) {
                Some(&self.nonces()[*nonce])
            } else {
                None
            },
    {
        match self.nonce_to_id.get(nonce) {
            Some(id) => if self.node_to_state.contains_key(id) {
                Some(id)
            } else {
                None
            },
            None => None,
        }
    }

    /// Returns the node that the timer belongs to, if that node is tracked.
    pub fn get_node_for_timer(&self, timer: &TimerId) -> (res: Option<&NodeId>)
        ensures
            res == if self.timers().contains_key(*timer) && self.states().contains_key(
                self.timers()[*timer],
            ) {
                Some(&self.timers()[*timer])
            } else {
                None
            },
    {
        match self.timer_to_node.get(timer) {
            Some(id) => if self.node_to_state.contains_key(id) {
                Some(id)
            } else {
                None
            },
            None => None,
        }
    }

    /// Adds a further nonce to a tracked node.
    pub fn add_nonce_for_node(&mut self, node: NodeId, nonce: Nonce) -> (res: Result<(), errors::AddNonceError>)
        ensures
            !old(self).states().contains_key(node) ==> res == Err::<(), _>(errors::AddNonceError::UnknownNode)
                && *final(self) == *old(self),
            old(self).states().contains_key(node) && old(self).nonces().contains_key(nonce) ==> res
                == Err::<(), _>(errors::AddNonceError::DuplicateNonce) && *final(self) == *old(self),
            old(self).states().contains_key(node) && !old(self).nonces().contains_key(nonce) ==> res
                == Ok::<(), errors::AddNonceError>(()) && final(self).nonces() == old(self).nonces().insert(nonce, node)
                && final(self).states() == old(self).states() && final(self).timers() == old(self).timers(),
    {
        if !self.node_to_state.contains_key(&node) {
            return Err(errors::AddNonceError::UnknownNode);
        }
        if self.nonce_to_id.contains_key(&nonce) {
            return Err(errors::AddNonceError::DuplicateNonce);
        }
        self.nonce_to_id.insert(nonce, node);
        Ok(())
    }

    /// Stops tracking the nonce; returns whether it was tracked.
    pub fn remove_nonce(&mut self, nonce: &Nonce) -> (removed: bool)
        ensures
            removed == old(self).nonces().contains_key(*nonce),
            final(self).nonces() == old(self).nonces().remove(*nonce),
            final(self).states() == old(self).states(),
            final(self).timers() == old(self).timers(),
    {
        self.nonce_to_id.remove(nonce).is_some()
    }

    /// The nonces of the node, as `nonces` lists them: exactly the tracked nonces that
    /// belong to the node.
    pub open spec fn lists_nonces_of(nonces: Seq<Nonce>, known: Map<Nonce, NodeId>, id: NodeId) -> bool {
        forall|n: Nonce| nonces.contains(n) <==> known.contains_key(n) && known[n] == id
    }

    /// Whether some timer belongs to the node.
    pub open spec fn has_timer(timers: Map<TimerId, NodeId>, id: NodeId) -> bool {
        exists|t: TimerId| #[trigger] timers.contains_key(t) && timers[t] == id
    }

    /// Removes the node's backoff together with its timer and all its nonces (each once,
    /// in no particular order).
    pub fn remove(&mut self, id: &NodeId) -> (res: Option<Removed>)
        requires
            old(self).states().contains_key(*id) ==> Self::has_timer(old(self).timers(), *id),
        ensures
            !old(self).states().contains_key(*id) ==> res.is_none() && final(self).states()
                == old(self).states() && final(self).timers() == old(self).timers() && final(self).nonces()
                == old(self).nonces(),
            old(self).states().contains_key(*id) ==> (res matches Some((state, t, ns)) && {
                &&& state == old(self).states()[*id]
                &&& old(self).timers().contains_key(t) && old(self).timers()[t] == *id
                &&& ns@.no_duplicates()
                &&& Self::lists_nonces_of(ns@, old(self).nonces(), *id)
                &&& final(self).states() == old(self).states().remove(*id)
                &&& final(self).timers() == Self::timers_without(old(self).timers(), *id)
                &&& final(self).nonces() == old(self).nonces().restrict(
                    old(self).nonces().dom().filter(|n: Nonce| old(self).nonces()[n] != *id),
                )
            }),
    {
        match self.node_to_state.remove(id) {
            Some(state) => {
                let timers = remove_keys_for(&mut self.timer_to_node, id);
                let nonces = remove_keys_for(&mut self.nonce_to_id, id);
                if timers.len() == 0 {
                    proof {
                        let t = choose|t: TimerId| #[trigger] old(self).timers().contains_key(t) && old(self).timers()[t] == *id;
                        assert(!timers@.contains(t));
                    }
                    return None;
                }
                assert(timers@.contains(timers@[0]));
                Some((state, timers[0], nonces))
            },
            None => None,
        }
    }

    /// Removes the backoff of the node that the nonce belongs to, together with the node's
    /// timer and all its nonces: the other nonces of the node (each once, in no particular
    /// order) and then the given one.
    ///
    /// The nonce is removed first; if the node has no timer nothing else is removed, and
    /// if the node has no backoff `None` comes back after the timer and nonces were removed.
    pub fn remove_by_nonce(&mut self, nonce: &Nonce) -> (res: Option<Removed>)
        ensures
            !old(self).nonces().contains_key(*nonce) ==> res.is_none() && final(self).states()
                == old(self).states() && final(self).timers() == old(self).timers() && final(self).nonces()
                == old(self).nonces(),
            old(self).nonces().contains_key(*nonce) && !Self::has_timer(
                old(self).timers(),
                old(self).nonces()[*nonce],
            ) ==> res.is_none() && final(self).states() == old(self).states() && final(self).timers()
                == old(self).timers() && final(self).nonces() == old(self).nonces().remove(*nonce),
            old(self).nonces().contains_key(*nonce) && Self::has_timer(
                old(self).timers(),
                old(self).nonces()[*nonce],
            ) ==> ({
                let node = old(self).nonces()[*nonce];
                &&& final(self).timers() == Self::timers_without(old(self).timers(), node)
                &&& final(self).nonces() == old(self).nonces().restrict(
                    old(self).nonces().dom().filter(|n: Nonce| old(self).nonces()[n] != node),
                )
                &&& final(self).states() == old(self).states().remove(node)
                &&& old(self).states().contains_key(node) <==> res is Some
                &&& res matches Some((state, t, ns)) ==> {
                    &&& state == old(self).states()[node]
                    &&& old(self).timers().contains_key(t) && old(self).timers()[t] == node
                    &&& ns@.no_duplicates()
                    &&& ns@.len() >= 1
                    &&& ns@.last() == *nonce
                    &&& Self::lists_nonces_of(ns@.drop_last(), old(self).nonces().remove(*nonce), node)
                }
            }),
    {
        let ghost n0 = self.nonce_to_id@;
        let node_id = match self.nonce_to_id.remove(nonce) {
            Some(node_id) => node_id,
            None => return None,
        };
        if !has_key_for(&self.timer_to_node, &node_id) {
            return None;
        }
        let timers = remove_keys_for(&mut self.timer_to_node, &node_id);
        let mut removed_nonces = remove_keys_for(&mut self.nonce_to_id, &node_id);
        let ghost others = removed_nonces@;
        removed_nonces.push(*nonce);
        proof {
            assert(removed_nonces@.drop_last() == others);
            assert(!others.contains(*nonce));
            assert(self.nonce_to_id@ =~= n0.restrict(n0.dom().filter(|n: Nonce| n0[n] != node_id)));
        }
        match self.node_to_state.remove(&node_id) {
            Some(state) => {
                proof {
                    let t = choose|t: TimerId| #[trigger] old(self).timers().contains_key(t) && old(self).timers()[t] == node_id;
                    assert(timers@.contains(t));
                }
                assert(timers@.contains(timers@[0]));
                Some((state, timers[0], removed_nonces))
            },
            None => None,
        }
    }

    /// Removes the backoff of the node that the timer belongs to, together with the timer
    /// and all nonces of the node (each once, in no particular order).
    pub fn remove_by_timer(&mut self, timer_id: &TimerId) -> (res: Option<Removed>)
        ensures
            !old(self).timers().contains_key(*timer_id) ==> res.is_none() && final(self).states()
                == old(self).states() && final(self).timers() == old(self).timers() && final(self).nonces()
                == old(self).nonces(),
            old(self).timers().contains_key(*timer_id) ==> ({
                let node = old(self).timers()[*timer_id];
                &&& final(self).timers() == old(self).timers().remove(*timer_id)
                &&& final(self).nonces() == old(self).nonces().restrict(
                    old(self).nonces().dom().filter(|n: Nonce| old(self).nonces()[n] != node),
                )
                &&& final(self).states() == old(self).states().remove(node)
                &&& old(self).states().contains_key(node) <==> res is Some
                &&& res matches Some((state, t, ns)) ==> state == old(self).states()[node] && t == *timer_id
                    && ns@.no_duplicates() && Self::lists_nonces_of(ns@, old(self).nonces(), node)
            }),
    {
        let node_id = match self.timer_to_node.remove(timer_id) {
            Some(node_id) => node_id,
            None => return None,
        };
        let removed_nonces = remove_keys_for(&mut self.nonce_to_id, &node_id);
        match self.node_to_state.remove(&node_id) {
            Some(state) => Some((state, *timer_id, removed_nonces)),
            None => None,
        }
    }

    /// Gives the node the timer in place of its previous timer, which is returned.
    pub fn replace_timer_for(&mut self, id: NodeId, timer_id: TimerId) -> (res: Result<Option<TimerId>, errors::DuplicateTimerError>)
        ensures
            old(self).timers().contains_key(timer_id) ==> res == Err::<Option<TimerId>, _>(
                errors::DuplicateTimerError,
            ) && final(self).timers() == old(self).timers(),
            !old(self).timers().contains_key(timer_id) ==> final(self).timers() == Self::timers_without(
                old(self).timers(),
                id,
            ).insert(timer_id, id) && match res {
                Ok(Some(t)) => old(self).timers().contains_key(t) && old(self).timers()[t] == id,
                Ok(None) => !Self::has_timer(old(self).timers(), id),
                Err(_) => false,
            },
            final(self).states() == old(self).states(),
            final(self).nonces() == old(self).nonces(),
    {
        if self.timer_to_node.contains_key(&timer_id) {
            return Err(errors::DuplicateTimerError);
        }
        let removed = remove_keys_for(&mut self.timer_to_node, &id);
        self.timer_to_node.insert(timer_id, id);
        if removed.len() == 0 {
            proof {
                if Self::has_timer(old(self).timers(), id) {
                    let t = choose|t: TimerId| #[trigger] old(self).timers().contains_key(t) && old(self).timers()[t] == id;
                    assert(removed@.contains(t));
                }
            }
            Ok(None)
        } else {
            assert(removed@.contains(removed@[0]));
            Ok(Some(removed[0]))
        }
    }
}

/// Whether some key of the map belongs to the node.
fn has_key_for(m: &HashMap<u64, NodeId>, id: &NodeId) -> (b: bool)
    ensures
        b == exists|k: u64| #[trigger] m@.contains_key(k) && m@[k] == *id,
{
    for (k, v) in it: m.iter()
        invariant
            forall|i: int| 0 <= i < it.index() ==> *(#[trigger] it.seq()[i]).1 != *id,
    {
        if *v == *id {
            assert(m@.contains_key(*k) && m@[*k] == *v);
            return true;
        }
    }
    assert(forall|k: u64| m@.contains_key(k) ==> m@[k] != *id);
    false
}

/// The keys of the map that belong to the node, each once.
fn keys_of(m: &HashMap<u64, NodeId>, id: &NodeId) -> (v: Vec<u64>)
    ensures
        v@.no_duplicates(),
        forall|k: u64| v@.contains(k) <==> m@.contains_key(k) && m@[k] == *id,
{
    let mut keys: Vec<u64> = Vec::new();
    for k in it: m.keys()
        invariant
            it.seq() == m.keys().remaining(),
            keys@.len() == it.index(),
            forall|i: int| 0 <= i < it.index() ==> keys@[i] == *(#[trigger] it.seq()[i]),
    {
        keys.push(*k);
    }
    proof {
        let sq = m.keys().remaining();
        assert(sq.unref().to_set() == m@.dom());
        assert(keys@ =~= sq.unref());
        assert forall|i: int, j: int| 0 <= i < keys@.len() && 0 <= j < keys@.len() && i != j implies keys@[i] != keys@[j] by {
            assert(sq[i] != sq[j]);
        }
    }
    let mut v: Vec<u64> = Vec::new();
    let mut i: usize = 0;
    while i < keys.len()
        invariant
            keys@.no_duplicates(),
            keys@.to_set() == m@.dom(),
            i <= keys@.len(),
            v@.no_duplicates(),
            forall|j: int| 0 <= j < v.len() ==> keys@.take(i as int).contains(#[trigger] v@[j]) && m@.contains_key(v@[j]) && m@[v@[j]] == *id,
            forall|j: int| 0 <= j < i && m@[#[trigger] keys@[j]] == *id ==> v@.contains(keys@[j]),
        decreases keys@.len() - i,
    {
        let k = keys[i];
        assert(keys@.to_set().contains(k));
        let mine = match m.get(&k) {
            Some(x) => *x == *id,
            None => false,
        };
        if mine {
            assert(!v@.contains(k)) by {
                if v@.contains(k) {
                    let j = choose|j: int| 0 <= j < v.len() && v@[j] == k;
                    assert(keys@.take(i as int).contains(v@[j]));
                    let l = choose|l: int| 0 <= l < i && keys@.take(i as int)[l] == k;
                    assert(keys@[l] == keys@[i as int]);
                }
            }
            v.push(k);
            assert(v@[v.len() - 1] == k);
        }
        proof {
            assert forall|j: int| 0 <= j < v.len() implies keys@.take(i + 1).contains(#[trigger] v@[j]) by {
                if j == v.len() - 1 && mine {
                    assert(keys@.take(i + 1)[i as int] == k);
                } else {
                    assert(keys@.take(i as int).contains(v@[j]));
                    let l = choose|l: int| 0 <= l < i && keys@.take(i as int)[l] == v@[j];
                    assert(keys@.take(i + 1)[l] == v@[j]);
                }
            }
        }
        i = i + 1;
    }
    proof {
        assert forall|k: u64| m@.contains_key(k) && m@[k] == *id implies v@.contains(k) by {
            assert(keys@.to_set().contains(k));
            let l = choose|l: int| 0 <= l < keys@.len() && keys@[l] == k;
        }
    }
    v
}

/// Removes the keys of the map that belong to the node and returns them, each once.
fn remove_keys_for(m: &mut HashMap<u64, NodeId>, id: &NodeId) -> (ks: Vec<u64>)
    ensures
        ks@.no_duplicates(),
        forall|k: u64| ks@.contains(k) <==> old(m)@.contains_key(k) && old(m)@[k] == *id,
        final(m)@ == old(m)@.restrict(old(m)@.dom().filter(|k: u64| old(m)@[k] != *id)),
{
    let ks = keys_of(m, id);
    let mut i: usize = 0;
    while i < ks.len()
        invariant
            i <= ks.len(),
            forall|k: u64| #[trigger] m@.contains_key(k) <==> (old(m)@.contains_key(k) && !ks@.take(i as int).contains(k)),
            forall|k: u64| #[trigger] m@.contains_key(k) ==> m@[k] == old(m)@[k],
            forall|k: u64| ks@.contains(k) <==> old(m)@.contains_key(k) && old(m)@[k] == *id,
        decreases ks.len() - i,
    {
        m.remove(&ks[i]);
        assert(ks@.take(i + 1) == ks@.take(i as int).push(ks@[i as int]));
        i = i + 1;
    }
    assert(ks@.take(ks.len() as int) == ks@);
    assert(m@ =~= old(m)@.restrict(old(m)@.dom().filter(|k: u64| old(m)@[k] != *id)));
    ks
}

/// After inserting a contact, its nonce and its timer both lead back to it, and the timer
/// is the node's only one.
pub proof fn law_insert_then_lookup(before: BackoffMap, after: BackoffMap, key: (NodeId, TimerId, Nonce), value: ExponentialBackoff)
    requires
        !before.timers().contains_key(key.1),
        !before.nonces().contains_key(key.2),
        after.states() == before.states().insert(key.0, value),
        after.timers() == BackoffMap::timers_without(before.timers(), key.0).insert(key.1, key.0),
        after.nonces() == before.nonces().insert(key.2, key.0),
    ensures
        after.nonces().contains_key(key.2) && after.states().contains_key(after.nonces()[key.2]) && after.nonces()[key.2] == key.0,
        after.timers().contains_key(key.1) && after.states().contains_key(after.timers()[key.1]) && after.timers()[key.1] == key.0,
        after.states()[key.0] == value,
        forall|t: TimerId| #[trigger] after.timers().contains_key(t) && after.timers()[t] == key.0 ==> t == key.1,
{
}

/// One call on the map leaves the backoff of `n` as it is: it leaves all backoffs alone
/// (`get`, adding or removing nonces, replacing timers), or it inserts or removes the
/// backoff of another node.
pub open spec fn keeps_backoff_of(before: Map<NodeId, ExponentialBackoff>, after: Map<NodeId, ExponentialBackoff>, n: NodeId) -> bool {
    ||| after == before
    ||| exists|m: NodeId, w: ExponentialBackoff| m != n && after == before.insert(m, w)
    ||| exists|m: NodeId| m != n && after == before.remove(m)
}

/// The backoff inserted for a node is what `get` gives for it after any sequence of calls
/// that leave its backoff alone (see [keeps_backoff_of]); `states[0]` is the map's backoffs
/// right after the insert.
pub proof fn law_get_after_insert(states: Seq<Map<NodeId, ExponentialBackoff>>, n: NodeId, v: ExponentialBackoff)
    requires
        states.len() >= 1,
        states[0].contains_key(n) && states[0][n] == v,
        forall|i: int| 0 <= i < states.len() - 1 ==> keeps_backoff_of(#[trigger] states[i], states[i + 1], n),
    ensures
        states.last().get(n) == Some(v),
    decreases states.len(),
{
    if states.len() > 1 {
        let prefix = states.drop_last();
        assert forall|i: int| 0 <= i < prefix.len() - 1 implies keeps_backoff_of(#[trigger] prefix[i], prefix[i + 1], n) by {
            assert(prefix[i] == states[i] && prefix[i + 1] == states[i + 1]);
        }
        law_get_after_insert(prefix, n, v);
        let before = states[states.len() - 2];
        let after = states.last();
        assert(keeps_backoff_of(states[states.len() - 2], states[states.len() - 2 + 1], n));
        assert(prefix.last() == before);
        if after != before {
            if exists|m: NodeId, w: ExponentialBackoff| m != n && after == before.insert(m, w) {
                let (m, w) = choose|m: NodeId, w: ExponentialBackoff| m != n && after == before.insert(m, w);
                assert(after.get(n) == before.get(n));
            } else {
                let m = choose|m: NodeId| m != n && after == before.remove(m);
                assert(after.get(n) == before.get(n));
            }
        }
    } else {
        assert(states.last() == states[0]);
    }
}

/// After removing a node, neither the node nor any of its timers or nonces is tracked.
pub proof fn law_remove_forgets_node(before: BackoffMap, after: BackoffMap, id: NodeId)
    requires
        after.states() == before.states().remove(id),
        after.timers() == BackoffMap::timers_without(before.timers(), id),
        after.nonces() == before.nonces().restrict(before.nonces().dom().filter(|n: Nonce| before.nonces()[n] != id)),
    ensures
        !after.states().contains_key(id),
        forall|t: TimerId| #[trigger] after.timers().contains_key(t) ==> after.timers()[t] != id,
        forall|n: Nonce| #[trigger] after.nonces().contains_key(n) ==> after.nonces()[n] != id,
{
}

} // verus!
