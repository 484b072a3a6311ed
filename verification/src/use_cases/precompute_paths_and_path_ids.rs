//! Precomputation of the path-id forwarding entries for the paths of the vicinity.

use std::collections::HashMap;

use vstd::prelude::*;

use crate::domain::{
    Hasher, Micros, NodeId, PathIdEntry, PathIdForwardingEntry, PathIdTableUpdate, TimerId,
    UnderlayNeighborId, path_hash,
};

verus! {

broadcast use {vstd::std_specs::hash::group_hash_axioms, vstd::seq_lib::group_seq_properties};

/// Configuration of [PrecomputePathIds].
#[derive(Debug, Clone, Copy, PartialEq, Eq, Default)]
pub struct PrecomputePathIdsConfig {
    /// Interval of the precomputation, in microseconds; `None` precomputes on every change
    /// of the vicinity.
    pub update_interval: Option<Micros>,
    /// Hasher that derives path ids from paths.
    pub hasher: Hasher,
}

/// State of [PrecomputePathIds].
#[derive(Debug, Clone, Copy, PartialEq, Eq, Structural)]
pub enum PrecomputeState {
    /// Precomputes on every change of the vicinity.
    Idle,
    /// Precomputes when the periodic timer fires.
    Waiting { resync_timer: TimerId },
    Error,
}

/// The path id that the entry is for.
pub open spec fn in_id(e: PathIdEntry) -> u64 {
    match e {
        PathIdEntry::Forward(f) => f.in_path_id,
        PathIdEntry::Decapsulate { in_path_id, .. } => in_path_id,
    }
}

/// The forwarding entry of a vicinity path (this node first): packets with the path's id
/// go on with the id of the path without this node, to the underlay neighbor that is the
/// path's second node.
pub open spec fn entry_for(p: Seq<NodeId>, uln_table: Map<NodeId, UnderlayNeighborId>) -> PathIdEntry {
    PathIdEntry::Forward(
        PathIdForwardingEntry { in_path_id: path_hash(p), out_path_id: path_hash(p.drop_first()), next_hop: uln_table[p[1]] },
    )
}

/// The path has a next hop that is an underlay neighbor.
pub open spec fn has_next_hop(p: Seq<NodeId>, uln_table: Map<NodeId, UnderlayNeighborId>) -> bool {
    p.len() >= 2 && uln_table.contains_key(p[1])
}

/// The forwarding entries of the vicinity paths that have an underlay neighbor as next
/// hop.
pub open spec fn graph_entries(paths: Seq<Vec<NodeId>>, uln_table: Map<NodeId, UnderlayNeighborId>) -> Set<PathIdEntry> {
    Set::new(|e: PathIdEntry| exists|i: int| 0 <= i < paths.len() && has_next_hop(paths[i]@, uln_table) && e == entry_for(#[trigger] paths[i]@, uln_table))
}

/// The removals of the entries of `old` (in its order) that are not in `new`.
pub open spec fn removals(old: Seq<PathIdEntry>, new: Seq<PathIdEntry>) -> Seq<PathIdTableUpdate>
    decreases old.len(),
{
    if old.len() == 0 {
        seq![]
    } else {
        removals(old.drop_last(), new) + if new.contains(old.last()) {
            seq![]
        } else {
            seq![PathIdTableUpdate::Remove(in_id(old.last()))]
        }
    }
}

/// The creations of the entries of `new` (in its order) that are not in `old`.
pub open spec fn creations(old: Seq<PathIdEntry>, new: Seq<PathIdEntry>) -> Seq<PathIdTableUpdate>
    decreases new.len(),
{
    if new.len() == 0 {
        seq![]
    } else {
        creations(old, new.drop_last()) + if old.contains(new.last()) {
            seq![]
        } else {
            seq![PathIdTableUpdate::CreateOrUpdate(new.last())]
        }
    }
}

/// Keeps the path-id forwarding entries of the vicinity paths up to date: on every change
/// of the vicinity, or periodically, it computes the entries of the current paths, removes
/// those no longer there and creates the new ones.
#[derive(Debug)]
pub struct PrecomputePathIds {
    state: PrecomputeState,
    config: PrecomputePathIdsConfig,
    /// The entries currently in the forwarding table, each once.
    old_entries: Vec<PathIdEntry>,
}

impl PrecomputePathIds {
    /// The state.
    pub closed spec fn state_view(&self) -> PrecomputeState {
        self.state
    }

    /// The configuration.
    pub closed spec fn config_view(&self) -> PrecomputePathIdsConfig {
        self.config
    }

    /// The entries that the use case put into the forwarding table.
    pub closed spec fn entries(&self) -> Seq<PathIdEntry> {
        self.old_entries@
    }

    /// Creates the use case, idle and without entries.
    pub fn new(config: PrecomputePathIdsConfig) -> (p: Self)
        ensures
            p.state_view() == PrecomputeState::Idle,
            p.config_view() == config,
            p.entries() == Seq::<PathIdEntry>::empty(),
    {
        PrecomputePathIds { state: PrecomputeState::Idle, config, old_entries: Vec::new() }
    }

    /// The current state.
    pub fn state(&self) -> (s: &PrecomputeState)
        ensures
            *s == self.state_view(),
    {
        &self.state
    }

    /// Starts the use case: with an update interval it waits for the periodic timer that
    /// the runtime registered with it; without one nothing changes.
    pub fn start(&mut self, timer_id: TimerId)
        ensures
            final(self).config_view() == old(self).config_view(),
            final(self).entries() == old(self).entries(),
            final(self).state_view() == if old(self).config_view().update_interval is Some {
                PrecomputeState::Waiting { resync_timer: timer_id }
            } else {
                old(self).state_view()
            },
    {
        if self.config.update_interval.is_some() {
            self.state = PrecomputeState::Waiting { resync_timer: timer_id };
        }
    }

    /// The entries of the vicinity paths (see [graph_entries]), each once.
    pub fn gen_entries_from_graph(
        &self,
        paths: &Vec<Vec<NodeId>>,
        uln_table: &HashMap<NodeId, UnderlayNeighborId>,
    ) -> (entries: Vec<PathIdEntry>)
        ensures
            entries@.no_duplicates(),
            entries@.to_set() == graph_entries(paths@, uln_table@),
    {
        let mut entries: Vec<PathIdEntry> = Vec::new();
        let mut i: usize = 0;
        while i < paths.len()
            invariant
                i <= paths@.len(),
                entries@.no_duplicates(),
                forall|e: PathIdEntry| entries@.contains(e) <==> exists|j: int| 0 <= j < i && has_next_hop(paths@[j]@, uln_table@) && e == entry_for(#[trigger] paths@[j]@, uln_table@),
            decreases paths@.len() - i,
        {
            let path = &paths[i];
            if path.len() >= 2 {
                if let Some(next_hop) = uln_table.get(&path[1]) {
                    let out_path = skip_first(path);
                    let entry = PathIdEntry::Forward(
                        PathIdForwardingEntry {
                            in_path_id: self.config.hasher.hash(path),
                            out_path_id: self.config.hasher.hash(&out_path),
                            next_hop: *next_hop,
                        },
                    );
                    assert(entry == entry_for(paths@[i as int]@, uln_table@));
                    if !contains_entry(&entries, &entry) {
                        entries.push(entry);
                    }
                }
            }
            i = i + 1;
        }
        assert(entries@.to_set() =~= graph_entries(paths@, uln_table@));
        entries
    }

    /// Replaces the entries by those of the current vicinity paths: removes the old ones
    /// that are gone, then creates the new ones.
    pub fn precompute_paths_and_ids(
        &mut self,
        paths: &Vec<Vec<NodeId>>,
        uln_table: &HashMap<NodeId, UnderlayNeighborId>,
    ) -> (updates: Vec<PathIdTableUpdate>)
        ensures
            final(self).config_view() == old(self).config_view(),
            final(self).state_view() == old(self).state_view(),
            final(self).entries().no_duplicates(),
            final(self).entries().to_set() == graph_entries(paths@, uln_table@),
            updates@ == removals(old(self).entries(), final(self).entries()) + creations(old(self).entries(), final(self).entries()),
    {
        let new_entries = self.gen_entries_from_graph(paths, uln_table);
        let mut updates: Vec<PathIdTableUpdate> = Vec::new();
        let mut i: usize = 0;
        while i < self.old_entries.len()
            invariant
                i <= self.old_entries@.len(),
                updates@ == removals(self.old_entries@.take(i as int), new_entries@),
            decreases self.old_entries@.len() - i,
        {
            let e = self.old_entries[i];
            assert(self.old_entries@.take(i + 1).drop_last() == self.old_entries@.take(i as int));
            if !contains_entry(&new_entries, &e) {
                let id = match e {
                    PathIdEntry::Forward(f) => f.in_path_id,
                    PathIdEntry::Decapsulate { in_path_id, .. } => in_path_id,
                };
                updates.push(PathIdTableUpdate::Remove(id));
            }
            i = i + 1;
        }
        assert(self.old_entries@.take(self.old_entries@.len() as int) == self.old_entries@);
        let ghost removed = updates@;
        let mut j: usize = 0;
        while j < new_entries.len()
            invariant
                j <= new_entries@.len(),
                updates@ == removed + creations(self.old_entries@, new_entries@.take(j as int)),
            decreases new_entries@.len() - j,
        {
            let e = new_entries[j];
            assert(new_entries@.take(j + 1).drop_last() == new_entries@.take(j as int));
            if !contains_entry(&self.old_entries, &e) {
                updates.push(PathIdTableUpdate::CreateOrUpdate(e));
            }
            j = j + 1;
        }
        assert(new_entries@.take(new_entries@.len() as int) == new_entries@);
        self.old_entries = new_entries;
        updates
    }

    /// The vicinity changed: without an update interval the entries are recomputed.
    pub fn handle_vicinity_changed(
        &mut self,
        paths: &Vec<Vec<NodeId>>,
        uln_table: &HashMap<NodeId, UnderlayNeighborId>,
    ) -> (updates: Vec<PathIdTableUpdate>)
        ensures
            final(self).config_view() == old(self).config_view(),
            final(self).state_view() == old(self).state_view(),
            old(self).config_view().update_interval is Some ==> updates@.len() == 0 && final(self).entries() == old(self).entries(),
            old(self).config_view().update_interval is None ==> final(self).entries().no_duplicates()
                && final(self).entries().to_set() == graph_entries(paths@, uln_table@)
                && updates@ == removals(old(self).entries(), final(self).entries()) + creations(old(self).entries(), final(self).entries()),
    {
        if self.config.update_interval.is_none() {
            self.precompute_paths_and_ids(paths, uln_table)
        } else {
            Vec::new()
        }
    }

    /// A timer fired: the periodic timer recomputes the entries.
    pub fn handle_timer(
        &mut self,
        timer_id: TimerId,
        paths: &Vec<Vec<NodeId>>,
        uln_table: &HashMap<NodeId, UnderlayNeighborId>,
    ) -> (updates: Vec<PathIdTableUpdate>)
        ensures
            final(self).config_view() == old(self).config_view(),
            final(self).state_view() == old(self).state_view(),
            old(self).state_view() != (PrecomputeState::Waiting { resync_timer: timer_id }) ==> updates@.len() == 0
                && final(self).entries() == old(self).entries(),
            old(self).state_view() == (PrecomputeState::Waiting { resync_timer: timer_id }) ==> final(self).entries().no_duplicates()
                && final(self).entries().to_set() == graph_entries(paths@, uln_table@)
                && updates@ == removals(old(self).entries(), final(self).entries()) + creations(old(self).entries(), final(self).entries()),
    {
        match self.state {
            PrecomputeState::Waiting { resync_timer } => {
                if resync_timer == timer_id {
                    return self.precompute_paths_and_ids(paths, uln_table);
                }
            },
            _ => {},
        }
        Vec::new()
    }
}

/// Whether the entry is one of the entries.
fn contains_entry(entries: &Vec<PathIdEntry>, e: &PathIdEntry) -> (b: bool)
    ensures
        b == entries@.contains(*e),
{
    let mut i: usize = 0;
    while i < entries.len()
        invariant
            i <= entries@.len(),
            forall|j: int| 0 <= j < i ==> entries@[j] != *e,
        decreases entries@.len() - i,
    {
        if entries[i] == *e {
            return true;
        }
        i = i + 1;
    }
    false
}

/// The path without its first node.
fn skip_first(path: &Vec<NodeId>) -> (rest: Vec<NodeId>)
    requires
        path@.len() >= 1,
    ensures
        rest@ == path@.drop_first(),
{
    let mut rest: Vec<NodeId> = Vec::new();
    let mut i: usize = 1;
    while i < path.len()
        invariant
            1 <= i <= path.len(),
            rest@ == path@.subrange(1, i as int),
        decreases path.len() - i,
    {
        rest.push(path[i]);
        i = i + 1;
    }
    rest
}

/// The forwarding table after the updates, applied in order (by path id).
pub open spec fn applied(t: Map<u64, PathIdEntry>, us: Seq<PathIdTableUpdate>) -> Map<u64, PathIdEntry>
    decreases us.len(),
{
    if us.len() == 0 {
        t
    } else {
        let t0 = applied(t, us.drop_last());
        match us.last() {
            PathIdTableUpdate::Remove(id) => t0.remove(id),
            PathIdTableUpdate::Create(e) => t0.insert(in_id(e), e),
            PathIdTableUpdate::CreateOrUpdate(e) => t0.insert(in_id(e), e),
            PathIdTableUpdate::Update(e) => t0.insert(in_id(e), e),
        }
    }
}

/// No two entries share a path id.
pub open spec fn unique_ids(es: Seq<PathIdEntry>) -> bool {
    forall|i: int, j: int| 0 <= i < es.len() && 0 <= j < es.len() && #[trigger] in_id(es[i]) == #[trigger] in_id(es[j]) ==> i == j
}

/// The table holds exactly the entries, each under its path id.
pub open spec fn holds_exactly(t: Map<u64, PathIdEntry>, es: Seq<PathIdEntry>) -> bool {
    &&& forall|i: int| 0 <= i < es.len() ==> t.contains_key(in_id(#[trigger] es[i])) && t[in_id(es[i])] == es[i]
    &&& forall|id: u64| #[trigger] t.contains_key(id) ==> exists|i: int| 0 <= i < es.len() && in_id(#[trigger] es[i]) == id
}

/// Applying a concatenation applies one part after the other.
proof fn lemma_applied_concat(t: Map<u64, PathIdEntry>, a: Seq<PathIdTableUpdate>, b: Seq<PathIdTableUpdate>)
    ensures
        applied(t, a + b) == applied(applied(t, a), b),
    decreases b.len(),
{
    if b.len() > 0 {
        lemma_applied_concat(t, a, b.drop_last());
        assert((a + b).drop_last() == a + b.drop_last());
        assert((a + b).last() == b.last());
    } else {
        assert(a + b == a);
    }
}

/// The removals of a prefix of the old entries remove exactly the ids of its entries that
/// are gone, and keep the other entries.
proof fn lemma_removals(t: Map<u64, PathIdEntry>, old: Seq<PathIdEntry>, new: Seq<PathIdEntry>, k: int)
    requires
        0 <= k <= old.len(),
    ensures
        forall|id: u64| #[trigger] applied(t, removals(old.take(k), new)).contains_key(id) <==> t.contains_key(id)
            && !(exists|j: int| 0 <= j < k && !new.contains(old[j]) && #[trigger] in_id(old[j]) == id),
        forall|id: u64| #[trigger] applied(t, removals(old.take(k), new)).contains_key(id) ==> applied(t, removals(old.take(k), new))[id] == t[id],
    decreases k,
{
    if k > 0 {
        lemma_removals(t, old, new, k - 1);
        let pre = old.take(k - 1);
        assert(old.take(k).drop_last() == pre);
        assert(old.take(k).last() == old[k - 1]);
        let tail = if new.contains(old[k - 1]) {
            Seq::<PathIdTableUpdate>::empty()
        } else {
            seq![PathIdTableUpdate::Remove(in_id(old[k - 1]))]
        };
        assert(removals(old.take(k), new) == removals(pre, new) + tail);
        lemma_applied_concat(t, removals(pre, new), tail);
        if !new.contains(old[k - 1]) {
            assert(tail.drop_last() == Seq::<PathIdTableUpdate>::empty());
        }
        let t0 = applied(t, removals(pre, new));
        assert forall|id: u64| #[trigger] applied(t, removals(old.take(k), new)).contains_key(id) <==> t.contains_key(id)
            && !(exists|j: int| 0 <= j < k && !new.contains(old[j]) && #[trigger] in_id(old[j]) == id) by {
            if exists|j: int| 0 <= j < k && !new.contains(old[j]) && #[trigger] in_id(old[j]) == id {
                let j = choose|j: int| 0 <= j < k && !new.contains(old[j]) && #[trigger] in_id(old[j]) == id;
                if j < k - 1 {
                    assert(!t0.contains_key(id));
                }
            }
        }
    } else {
        assert(old.take(0) == Seq::<PathIdEntry>::empty());
    }
}

/// The creations of a prefix of the new entries add exactly the entries that are new.
proof fn lemma_creations(t: Map<u64, PathIdEntry>, old: Seq<PathIdEntry>, new: Seq<PathIdEntry>, k: int)
    requires
        0 <= k <= new.len(),
        unique_ids(new),
    ensures
        forall|id: u64| #[trigger] applied(t, creations(old, new.take(k))).contains_key(id) <==> t.contains_key(id)
            || (exists|j: int| 0 <= j < k && !old.contains(new[j]) && #[trigger] in_id(new[j]) == id),
        forall|j: int| 0 <= j < k && !old.contains(#[trigger] new[j]) ==> applied(t, creations(old, new.take(k)))[in_id(new[j])] == new[j],
        forall|id: u64| #[trigger] applied(t, creations(old, new.take(k))).contains_key(id) && !(exists|j: int| 0 <= j < k && !old.contains(new[j]) && #[trigger] in_id(new[j]) == id)
            ==> applied(t, creations(old, new.take(k)))[id] == t[id],
    decreases k,
{
    if k > 0 {
        lemma_creations(t, old, new, k - 1);
        let pre = new.take(k - 1);
        assert(new.take(k).drop_last() == pre);
        assert(new.take(k).last() == new[k - 1]);
        let tail = if old.contains(new[k - 1]) {
            Seq::<PathIdTableUpdate>::empty()
        } else {
            seq![PathIdTableUpdate::CreateOrUpdate(new[k - 1])]
        };
        assert(creations(old, new.take(k)) == creations(old, pre) + tail);
        lemma_applied_concat(t, creations(old, pre), tail);
        if !old.contains(new[k - 1]) {
            assert(tail.drop_last() == Seq::<PathIdTableUpdate>::empty());
        }
        let t0 = applied(t, creations(old, pre));
        let t1 = applied(t, creations(old, new.take(k)));
        assert forall|id: u64| #[trigger] t1.contains_key(id) <==> t.contains_key(id)
            || (exists|j: int| 0 <= j < k && !old.contains(new[j]) && #[trigger] in_id(new[j]) == id) by {
            if exists|j: int| 0 <= j < k && !old.contains(new[j]) && #[trigger] in_id(new[j]) == id {
                let j = choose|j: int| 0 <= j < k && !old.contains(new[j]) && #[trigger] in_id(new[j]) == id;
                if j < k - 1 {
                    assert(t0.contains_key(id));
                }
            }
        }
        assert forall|j: int| 0 <= j < k && !old.contains(#[trigger] new[j]) implies t1[in_id(new[j])] == new[j] by {
            if j < k - 1 && !old.contains(new[k - 1]) {
                assert(in_id(new[j]) != in_id(new[k - 1]));
            }
        }
    } else {
        assert(new.take(0) == Seq::<PathIdEntry>::empty());
    }
}

/// After a precomputation the forwarding table holds exactly the entries of the current
/// vicinity paths: applied to a table that held exactly the old entries, the updates leave
/// exactly the new ones (as long as no two entries of either share a path id).
pub proof fn law_precompute_table(t: Map<u64, PathIdEntry>, old: Seq<PathIdEntry>, new: Seq<PathIdEntry>)
    requires
        holds_exactly(t, old),
        unique_ids(old),
        unique_ids(new),
    ensures
        holds_exactly(applied(t, removals(old, new) + creations(old, new)), new),
{
    lemma_applied_concat(t, removals(old, new), creations(old, new));
    lemma_removals(t, old, new, old.len() as int);
    assert(old.take(old.len() as int) == old);
    assert(new.take(new.len() as int) == new);
    let t1 = applied(t, removals(old, new));
    lemma_creations(t1, old, new, new.len() as int);
    let t2 = applied(t1, creations(old, new));
    assert forall|i: int| 0 <= i < new.len() implies t2.contains_key(in_id(#[trigger] new[i])) && t2[in_id(new[i])] == new[i] by {
        let e = new[i];
        let id = in_id(e);
        if old.contains(e) {
            let o = choose|o: int| 0 <= o < old.len() && old[o] == e;
            assert(t.contains_key(id) && t[id] == e);
            if exists|j: int| 0 <= j < old.len() && !new.contains(old[j]) && #[trigger] in_id(old[j]) == id {
                let j = choose|j: int| 0 <= j < old.len() && !new.contains(old[j]) && #[trigger] in_id(old[j]) == id;
                assert(in_id(old[j]) == in_id(old[o]));
                assert(j == o);
            }
            assert(t1.contains_key(id) && t1[id] == e);
            if exists|j: int| 0 <= j < new.len() && !old.contains(new[j]) && #[trigger] in_id(new[j]) == id {
                let j = choose|j: int| 0 <= j < new.len() && !old.contains(new[j]) && #[trigger] in_id(new[j]) == id;
                assert(in_id(new[j]) == in_id(new[i]));
                assert(j == i);
            }
        }
    }
    assert forall|id: u64| #[trigger] t2.contains_key(id) implies exists|i: int| 0 <= i < new.len() && in_id(#[trigger] new[i]) == id by {
        if !(exists|j: int| 0 <= j < new.len() && !old.contains(new[j]) && #[trigger] in_id(new[j]) == id) {
            assert(t1.contains_key(id));
            assert(t.contains_key(id));
            let o = choose|o: int| 0 <= o < old.len() && in_id(#[trigger] old[o]) == id;
            assert(new.contains(old[o]));
            let i = choose|i: int| 0 <= i < new.len() && new[i] == old[o];
            assert(in_id(new[i]) == id);
        }
    }
}

} // verus!
