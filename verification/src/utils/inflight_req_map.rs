//! Bookkeeping of request messages in flight: each request is known by its nonce and
//! by the timer that guards its timeout.

use std::collections::HashMap;

use vstd::prelude::*;

use crate::domain::{NodeId, Nonce, TimerId};
use crate::utils::nonce::distinct_nonce;
use vstd::std_specs::iter::IteratorSpec;

pub mod errors;

verus! {

broadcast use {vstd::std_specs::hash::group_hash_axioms, vstd::seq_lib::group_seq_properties};

/// Data structure to keep track of in-flight request messages.
#[derive(Debug)]
pub struct InflightReqMap {
    timer_to_node: HashMap<TimerId, (NodeId, Nonce)>,
    nonce_to_id: HashMap<Nonce, (NodeId, TimerId)>,
}

impl Default for InflightReqMap {
    fn default() -> (m: Self)
        ensures
            m.timers() == Map::<TimerId, (NodeId, Nonce)>::empty(),
            m.nonces() == Map::<Nonce, (NodeId, TimerId)>::empty(),
            m.consistent(),
    {
        InflightReqMap { timer_to_node: HashMap::new(), nonce_to_id: HashMap::new() }
    }
}

impl InflightReqMap {
    /// Timer of a request to the node and nonce of the request.
    pub closed spec fn timers(&self) -> Map<TimerId, (NodeId, Nonce)> {
        self.timer_to_node@
    }

    /// Nonce of a request to the node and timer of the request.
    pub closed spec fn nonces(&self) -> Map<Nonce, (NodeId, TimerId)> {
        self.nonce_to_id@
    }

    /// Every request is known both by its timer and by its nonce: the two maps are each
    /// other's inverse.
    pub open spec fn consistent(&self) -> bool {
        &&& forall|t: TimerId| #[trigger] self.timers().contains_key(t) ==> {
            let (n, nc) = self.timers()[t];
            self.nonces().contains_key(nc) && self.nonces()[nc] == (n, t)
        }
        &&& forall|nc: Nonce| #[trigger] self.nonces().contains_key(nc) ==> {
            let (n, t) = self.nonces()[nc];
            self.timers().contains_key(t) && self.timers()[t] == (n, nc)
        }
    }

    /// Inserts a tracked message with its node, timer and nonce.
    pub fn insert(&mut self, key: (NodeId, TimerId, Nonce)) -> (res: Result<(), errors::InsertionError>)
        ensures
            old(self).timers().contains_key(key.1) ==> res == Err::<(), _>(errors::InsertionError::DuplicateTimer)
                && final(self).timers() == old(self).timers() && final(self).nonces() == old(self).nonces(),
            !old(self).timers().contains_key(key.1) && old(self).nonces().contains_key(key.2) ==> res
                == Err::<(), _>(errors::InsertionError::DuplicateNonce) && final(self).timers() == old(self).timers()
                && final(self).nonces() == old(self).nonces(),
            !old(self).timers().contains_key(key.1) && !old(self).nonces().contains_key(key.2) ==> res
                == Ok::<(), errors::InsertionError>(()) && final(self).timers() == old(self).timers().insert(key.1, (key.0, key.2))
                && final(self).nonces() == old(self).nonces().insert(key.2, (key.0, key.1)),
            old(self).consistent() ==> final(self).consistent(),
    {
        let ghost before = *self;
        let (node_id, timer_id, nonce) = key;
        if self.timer_to_node.contains_key(&timer_id) {
            return Err(errors::InsertionError::DuplicateTimer);
        }
        if self.nonce_to_id.contains_key(&nonce) {
            return Err(errors::InsertionError::DuplicateNonce);
        }
        self.timer_to_node.insert(timer_id, (node_id, nonce));
        self.nonce_to_id.insert(nonce, (node_id, timer_id));
        proof {
            if before.consistent() {
                law_insert_keeps_consistent(before, *self, key);
            }
        }
        Ok(())
    }

    /// A nonce that no tracked request uses.
    pub fn fresh_nonce(&self) -> (n: Nonce)
        ensures
            !self.nonces().contains_key(n),
    {
        distinct_nonce(&self.nonce_to_id)
    }

    /// Whether the nonce is tracked.
    pub fn nonce_exists(&self, nonce: &Nonce) -> (b: bool)
        ensures
            b == self.nonces().contains_key(*nonce),
    {
        self.nonce_to_id.contains_key(nonce)
    }

    /// Whether the timer is tracked.
    pub fn timer_exists(&self, timer_id: &TimerId) -> (b: bool)
        ensures
            b == self.timers().contains_key(*timer_id),
    {
        self.timer_to_node.contains_key(timer_id)
    }

    /// Returns the node and timer associated with the nonce.
    pub fn get_value_for_nonce(&self, nonce: Nonce) -> (v: Option<&(NodeId, TimerId)>)
        ensures
            match v {
                Some(v) => self.nonces().contains_key(nonce) && *v == self.nonces()[nonce],
                None => !self.nonces().contains_key(nonce),
            },
    {
        self.nonce_to_id.get(&nonce)
    }

    /// Returns the node and nonce associated with the timer.
    pub fn get_value_for_timer(&self, timer: &TimerId) -> (v: Option<&(NodeId, Nonce)>)
        ensures
            match v {
                Some(v) => self.timers().contains_key(*timer) && *v == self.timers()[*timer],
                None => !self.timers().contains_key(*timer),
            },
    {
        self.timer_to_node.get(timer)
    }

    /// Whether a request to the node is tracked (by its nonce).
    pub fn exists_node(&self, node_id: &NodeId) -> (b: bool)
        ensures
            b == exists|n: Nonce| #[trigger] self.nonces().contains_key(n) && self.nonces()[n].0 == *node_id,
    {
        for (nonce, value) in it: self.nonce_to_id.iter()
            invariant
                forall|i: int| 0 <= i < it.index() ==> (#[trigger] it.seq()[i]).1.0 != *node_id,
                it.seq() == self.nonce_to_id.iter().remaining(),
        {
            if value.0 == *node_id {
                assert(self.nonces().contains_key(*nonce) && self.nonces()[*nonce] == *value);
                return true;
            }
        }
        false
    }

    /// Removes the request tracked under the nonce, together with its timer.
    ///
    /// The timer is removed only if the nonce's entry names one that is tracked; `None`
    /// comes back when either lookup fails.
    pub fn remove_by_nonce(&mut self, nonce: Nonce) -> (res: Option<(NodeId, TimerId)>)
        requires
            old(self).nonces().contains_key(nonce) && old(self).timers().contains_key(
                old(self).nonces()[nonce].1,
            ) ==> old(self).timers()[old(self).nonces()[nonce].1] == (old(self).nonces()[nonce].0, nonce),
        ensures
            !old(self).nonces().contains_key(nonce) ==> res.is_none() && final(self).nonces()
                == old(self).nonces() && final(self).timers() == old(self).timers(),
            old(self).nonces().contains_key(nonce) ==> {
                let (n, t) = old(self).nonces()[nonce];
                &&& final(self).nonces() == old(self).nonces().remove(nonce)
                &&& !old(self).timers().contains_key(t) ==> res.is_none() && final(self).timers()
                    == old(self).timers()
                &&& old(self).timers().contains_key(t) ==> res == Some((n, t)) && final(self).timers()
                    == old(self).timers().remove(t)
            },
            old(self).consistent() && old(self).nonces().contains_key(nonce) ==> res == Some(old(self).nonces()[nonce]),
            old(self).consistent() ==> final(self).consistent(),
    {
        let ghost before = *self;
        let (node_id, timer_id) = match self.nonce_to_id.remove(&nonce) {
            Some(v) => v,
            None => return None,
        };
        if self.timer_to_node.remove(&timer_id).is_none() {
            return None;
        }
        proof {
            if before.consistent() {
                law_remove_keeps_consistent(before, *self, nonce);
            }
        }
        Some((node_id, timer_id))
    }

    /// Removes the request guarded by the timer, together with its nonce.
    ///
    /// The nonce is removed only if the timer's entry names one that is tracked; `None`
    /// comes back when either lookup fails.
    pub fn remove_by_timer(&mut self, timer_id: &TimerId) -> (res: Option<(NodeId, Nonce)>)
        requires
            old(self).timers().contains_key(*timer_id) && old(self).nonces().contains_key(
                old(self).timers()[*timer_id].1,
            ) ==> old(self).nonces()[old(self).timers()[*timer_id].1] == (
                old(self).timers()[*timer_id].0,
                *timer_id,
            ),
        ensures
            !old(self).timers().contains_key(*timer_id) ==> res.is_none() && final(self).nonces()
                == old(self).nonces() && final(self).timers() == old(self).timers(),
            old(self).timers().contains_key(*timer_id) ==> {
                let (n, nc) = old(self).timers()[*timer_id];
                &&& final(self).timers() == old(self).timers().remove(*timer_id)
                &&& !old(self).nonces().contains_key(nc) ==> res.is_none() && final(self).nonces()
                    == old(self).nonces()
                &&& old(self).nonces().contains_key(nc) ==> res == Some((n, nc)) && final(self).nonces()
                    == old(self).nonces().remove(nc)
            },
            old(self).consistent() && old(self).timers().contains_key(*timer_id) ==> res == Some(old(self).timers()[*timer_id]),
            old(self).consistent() ==> final(self).consistent(),
    {
        let ghost before = *self;
        let (node_id, nonce) = match self.timer_to_node.remove(timer_id) {
            Some(v) => v,
            None => {
                assert(self.timers() =~= before.timers());
                assert(self.nonces() =~= before.nonces());
                return None;
            },
        };
        if self.nonce_to_id.remove(&nonce).is_none() {
            proof {
                if before.consistent() {
                    assert(before.timers().contains_key(*timer_id));
                    assert(before.nonces().contains_key(nonce));
                }
            }
            return None;
        }
        proof {
            if before.consistent() {
                law_remove_by_timer_keeps_consistent(before, *self, *timer_id);
            }
        }
        Some((node_id, nonce))
    }

    /// Removes every request to the node, by timer and by nonce.
    pub fn remove_by_id(&mut self, node_id: &NodeId)
        ensures
            final(self).timers() == old(self).timers().restrict(
                old(self).timers().dom().filter(|t: TimerId| old(self).timers()[t].0 != *node_id),
            ),
            final(self).nonces() == old(self).nonces().restrict(
                old(self).nonces().dom().filter(|n: Nonce| old(self).nonces()[n].0 != *node_id),
            ),
            old(self).consistent() ==> final(self).consistent(),
    {
        let ghost before = *self;
        let timers = timers_of_node(&self.timer_to_node, node_id);
        let mut i: usize = 0;
        while i < timers.len()
            invariant
                i <= timers.len(),
                forall|t: TimerId| #[trigger] self.timer_to_node@.contains_key(t) <==> (old(self).timers().contains_key(t)
                    && !timers@.take(i as int).contains(t)),
                forall|t: TimerId| #[trigger] self.timer_to_node@.contains_key(t) ==> self.timer_to_node@[t] == old(self).timers()[t],
                forall|t: TimerId| timers@.contains(t) <==> old(self).timers().contains_key(t) && old(self).timers()[t].0 == *node_id,
                self.nonce_to_id@ == old(self).nonces(),
            decreases timers.len() - i,
        {
            self.timer_to_node.remove(&timers[i]);
            assert(timers@.take(i + 1) == timers@.take(i as int).push(timers@[i as int]));
            i = i + 1;
        }
        assert(timers@.take(timers.len() as int) == timers@);
        assert(self.timer_to_node@ =~= old(self).timers().restrict(
            old(self).timers().dom().filter(|t: TimerId| old(self).timers()[t].0 != *node_id),
        ));
        let ghost timers_after = self.timer_to_node@;
        let nonces = nonces_of_node(&self.nonce_to_id, node_id);
        let mut j: usize = 0;
        while j < nonces.len()
            invariant
                j <= nonces.len(),
                forall|n: Nonce| #[trigger] self.nonce_to_id@.contains_key(n) <==> (old(self).nonces().contains_key(n)
                    && !nonces@.take(j as int).contains(n)),
                forall|n: Nonce| #[trigger] self.nonce_to_id@.contains_key(n) ==> self.nonce_to_id@[n] == old(self).nonces()[n],
                forall|n: Nonce| nonces@.contains(n) <==> old(self).nonces().contains_key(n) && old(self).nonces()[n].0 == *node_id,
                self.timer_to_node@ == timers_after,
            decreases nonces.len() - j,
        {
            self.nonce_to_id.remove(&nonces[j]);
            assert(nonces@.take(j + 1) == nonces@.take(j as int).push(nonces@[j as int]));
            j = j + 1;
        }
        assert(nonces@.take(nonces.len() as int) == nonces@);
        assert(self.nonce_to_id@ =~= old(self).nonces().restrict(
            old(self).nonces().dom().filter(|n: Nonce| old(self).nonces()[n].0 != *node_id),
        ));
        proof {
            if before.consistent() {
                law_remove_by_id_keeps_consistent(before, *self, *node_id);
            }
        }
    }

    /// Replaces the timer of the request tracked under the nonce and returns the old timer:
    /// the old timer is no longer tracked, and the new one leads to the request.
    pub fn replace_timer_for_nonce(&mut self, nonce: Nonce, new_timer_id: TimerId) -> (res: Result<Option<TimerId>, errors::ModificationError>)
        ensures
            old(self).timers().contains_key(new_timer_id) ==> res == Err::<Option<TimerId>, _>(
                errors::ModificationError::DuplicateTimerError,
            ) && final(self).nonces() == old(self).nonces() && final(self).timers() == old(self).timers(),
            !old(self).timers().contains_key(new_timer_id) && !old(self).nonces().contains_key(nonce) ==> res
                == Err::<Option<TimerId>, _>(errors::ModificationError::NonceDoesNotExistError) && final(self).nonces()
                == old(self).nonces() && final(self).timers() == old(self).timers(),
            !old(self).timers().contains_key(new_timer_id) && old(self).nonces().contains_key(nonce) ==> ({
                let (n, t) = old(self).nonces()[nonce];
                &&& res == Ok::<_, errors::ModificationError>(Some(t))
                &&& final(self).nonces() == old(self).nonces().insert(nonce, (n, new_timer_id))
                &&& final(self).timers() == old(self).timers().remove(t).insert(new_timer_id, (n, nonce))
            }),
            old(self).consistent() ==> final(self).consistent(),
    {
        let ghost before = *self;
        if self.timer_to_node.contains_key(&new_timer_id) {
            return Err(errors::ModificationError::DuplicateTimerError);
        }
        let (node_id, timer_id) = match self.nonce_to_id.get(&nonce) {
            Some(entry) => *entry,
            None => return Err(errors::ModificationError::NonceDoesNotExistError),
        };
        self.nonce_to_id.insert(nonce, (node_id, new_timer_id));
        self.timer_to_node.remove(&timer_id);
        self.timer_to_node.insert(new_timer_id, (node_id, nonce));
        proof {
            if before.consistent() {
                law_replace_timer_keeps_consistent(before, *self, nonce, new_timer_id);
            }
        }
        Ok(Some(timer_id))
    }
}

/// The timers whose request goes to the node.
fn timers_of_node(m: &HashMap<TimerId, (NodeId, Nonce)>, node_id: &NodeId) -> (v: Vec<TimerId>)
    ensures
        forall|t: TimerId| v@.contains(t) <==> m@.contains_key(t) && m@[t].0 == *node_id,
{
    let mut v: Vec<TimerId> = Vec::new();
    for (timer, value) in it: m.iter()
        invariant
            forall|j: int| 0 <= j < v.len() ==> m@.contains_key(#[trigger] v@[j]) && m@[v@[j]].0 == *node_id,
            forall|i: int| 0 <= i < it.index() ==> (#[trigger] it.seq()[i]).1.0 == *node_id ==> v@.contains(*it.seq()[i].0),
    {
        if value.0 == *node_id {
            assert(m@.contains_key(*timer) && m@[*timer] == *value);
            v.push(*timer);
            assert(v@[v.len() - 1] == *timer);
        }
    }
    assert(forall|t: TimerId| m@.contains_key(t) && m@[t].0 == *node_id ==> v@.contains(t));
    v
}

/// The nonces whose request goes to the node.
fn nonces_of_node(m: &HashMap<Nonce, (NodeId, TimerId)>, node_id: &NodeId) -> (v: Vec<Nonce>)
    ensures
        forall|n: Nonce| v@.contains(n) <==> m@.contains_key(n) && m@[n].0 == *node_id,
{
    let mut v: Vec<Nonce> = Vec::new();
    for (nonce, value) in it: m.iter()
        invariant
            forall|j: int| 0 <= j < v.len() ==> m@.contains_key(#[trigger] v@[j]) && m@[v@[j]].0 == *node_id,
            forall|i: int| 0 <= i < it.index() ==> (#[trigger] it.seq()[i]).1.0 == *node_id ==> v@.contains(*it.seq()[i].0),
    {
        if value.0 == *node_id {
            assert(m@.contains_key(*nonce) && m@[*nonce] == *value);
            v.push(*nonce);
            assert(v@[v.len() - 1] == *nonce);
        }
    }
    assert(forall|n: Nonce| m@.contains_key(n) && m@[n].0 == *node_id ==> v@.contains(n));
    v
}

/// Inserting a new request keeps every request known by timer and by nonce.
pub proof fn law_insert_keeps_consistent(before: InflightReqMap, after: InflightReqMap, key: (NodeId, TimerId, Nonce))
    requires
        before.consistent(),
        !before.timers().contains_key(key.1),
        !before.nonces().contains_key(key.2),
        after.timers() == before.timers().insert(key.1, (key.0, key.2)),
        after.nonces() == before.nonces().insert(key.2, (key.0, key.1)),
    ensures
        after.consistent(),
        after.nonces()[key.2] == (key.0, key.1),
        after.timers()[key.1] == (key.0, key.2),
{
}

/// Removing a request by its nonce keeps every request known by timer and by nonce; the
/// removal by timer does the same.
pub proof fn law_remove_keeps_consistent(before: InflightReqMap, after: InflightReqMap, nonce: Nonce)
    requires
        before.consistent(),
        before.nonces().contains_key(nonce),
        after.nonces() == before.nonces().remove(nonce),
        after.timers() == before.timers().remove(before.nonces()[nonce].1),
    ensures
        after.consistent(),
{
}

/// Removing every request to a node keeps every request known by timer and by nonce.
pub proof fn law_remove_by_id_keeps_consistent(before: InflightReqMap, after: InflightReqMap, node_id: NodeId)
    requires
        before.consistent(),
        after.timers() == before.timers().restrict(before.timers().dom().filter(|t: TimerId| before.timers()[t].0 != node_id)),
        after.nonces() == before.nonces().restrict(before.nonces().dom().filter(|n: Nonce| before.nonces()[n].0 != node_id)),
    ensures
        after.consistent(),
{
}

/// Removing a request by its timer keeps every request known by timer and by nonce.
pub proof fn law_remove_by_timer_keeps_consistent(before: InflightReqMap, after: InflightReqMap, timer_id: TimerId)
    requires
        before.consistent(),
        before.timers().contains_key(timer_id),
        after.timers() == before.timers().remove(timer_id),
        after.nonces() == before.nonces().remove(before.timers()[timer_id].1),
    ensures
        after.consistent(),
{
}

/// Replacing the timer of a tracked request by an unused one keeps every request known by
/// timer and by nonce, and the new timer leads to the request.
pub proof fn law_replace_timer_keeps_consistent(
    before: InflightReqMap,
    after: InflightReqMap,
    nonce: Nonce,
    new_timer_id: TimerId,
)
    requires
        before.consistent(),
        before.nonces().contains_key(nonce),
        !before.timers().contains_key(new_timer_id),
        after.nonces() == before.nonces().insert(nonce, (before.nonces()[nonce].0, new_timer_id)),
        after.timers() == before.timers().remove(before.nonces()[nonce].1).insert(
            new_timer_id,
            (before.nonces()[nonce].0, nonce),
        ),
    ensures
        after.consistent(),
        after.timers()[new_timer_id] == (before.nonces()[nonce].0, nonce),
        !after.timers().contains_key(before.nonces()[nonce].1),
{
}

/// Removing by timer what was just inserted gives back the map as it was.
pub proof fn law_insert_then_remove_by_timer_restores(before: InflightReqMap, key: (NodeId, TimerId, Nonce))
    requires
        !before.timers().contains_key(key.1),
        !before.nonces().contains_key(key.2),
    ensures
        before.timers().insert(key.1, (key.0, key.2)).remove(key.1) == before.timers(),
        before.nonces().insert(key.2, (key.0, key.1)).remove(before.timers().insert(key.1, (key.0, key.2))[key.1].1) == before.nonces(),
{
    assert(before.nonces().insert(key.2, (key.0, key.1)).remove(key.2) =~= before.nonces());
    assert(before.timers().insert(key.1, (key.0, key.2)).remove(key.1) =~= before.timers());
}

/// Removing by nonce what was just inserted gives back the map as it was.
pub proof fn law_insert_then_remove_restores(before: InflightReqMap, key: (NodeId, TimerId, Nonce))
    requires
        !before.timers().contains_key(key.1),
        !before.nonces().contains_key(key.2),
    ensures
        before.nonces().insert(key.2, (key.0, key.1)).remove(key.2) == before.nonces(),
        before.timers().insert(key.1, (key.0, key.2)).remove(before.nonces().insert(key.2, (key.0, key.1))[key.2].1) == before.timers(),
{
    assert(before.nonces().insert(key.2, (key.0, key.1)).remove(key.2) =~= before.nonces());
    assert(before.timers().insert(key.1, (key.0, key.2)).remove(key.1) =~= before.timers());
}

/// A request inserted into the map stays as it was while only further requests are
/// inserted (each step is an insert with an unused timer and nonce, or leaves the map as it
/// is); `ms[0]` is the map right after the insert. So removing it by its timer gives back
/// its node and nonce, and by its nonce its node and timer.
pub proof fn law_request_survives_inserts(ms: Seq<InflightReqMap>, key: (NodeId, TimerId, Nonce))
    requires
        ms.len() >= 1,
        ms[0].consistent(),
        ms[0].timers().contains_key(key.1) && ms[0].timers()[key.1] == (key.0, key.2),
        ms[0].nonces().contains_key(key.2) && ms[0].nonces()[key.2] == (key.0, key.1),
        forall|i: int|
            0 <= i < ms.len() - 1 ==> {
                ||| (#[trigger] ms[i]).timers() == ms[i + 1].timers() && ms[i].nonces() == ms[i + 1].nonces()
                ||| exists|k: (NodeId, TimerId, Nonce)|
                    !ms[i].timers().contains_key(k.1) && !ms[i].nonces().contains_key(k.2) && ms[i + 1].timers()
                        == ms[i].timers().insert(k.1, (k.0, k.2)) && ms[i + 1].nonces() == ms[i].nonces().insert(
                        k.2,
                        (k.0, k.1),
                    )
            },
    ensures
        ms.last().consistent(),
        ms.last().timers().contains_key(key.1) && ms.last().timers()[key.1] == (key.0, key.2),
        ms.last().nonces().contains_key(key.2) && ms.last().nonces()[key.2] == (key.0, key.1),
    decreases ms.len(),
{
    if ms.len() > 1 {
        let prefix = ms.drop_last();
        assert forall|i: int| 0 <= i < prefix.len() - 1 implies {
            ||| (#[trigger] prefix[i]).timers() == prefix[i + 1].timers() && prefix[i].nonces() == prefix[i + 1].nonces()
            ||| exists|k: (NodeId, TimerId, Nonce)|
                !prefix[i].timers().contains_key(k.1) && !prefix[i].nonces().contains_key(k.2) && prefix[i + 1].timers()
                    == prefix[i].timers().insert(k.1, (k.0, k.2)) && prefix[i + 1].nonces() == prefix[i].nonces().insert(
                    k.2,
                    (k.0, k.1),
                )
        } by {
            assert(prefix[i] == ms[i] && prefix[i + 1] == ms[i + 1]);
        }
        law_request_survives_inserts(prefix, key);
        let j = ms.len() - 2;
        let before = ms[j];
        let after = ms.last();
        assert(prefix.last() == before);
        assert(ms[j + 1] == after);
        if !(before.timers() == after.timers() && before.nonces() == after.nonces()) {
            let k = choose|k: (NodeId, TimerId, Nonce)|
                !ms[j].timers().contains_key(k.1) && !ms[j].nonces().contains_key(k.2) && ms[j + 1].timers()
                    == ms[j].timers().insert(k.1, (k.0, k.2)) && ms[j + 1].nonces() == ms[j].nonces().insert(k.2, (k.0, k.1));
            law_insert_keeps_consistent(before, after, k);
        } else {
            assert(after.consistent());
        }
    } else {
        assert(ms.last() == ms[0]);
    }
}

} // verus!
