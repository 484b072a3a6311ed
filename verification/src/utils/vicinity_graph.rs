//! The underlay vicinity of a node: which nodes are underlay neighbors of which, as far as
//! the node has learned, and the paths from the node through it.

use std::collections::{HashMap, HashSet};

use vstd::prelude::*;

use crate::domain::{copy_path, NodeId};

verus! {

broadcast use {
    vstd::std_specs::hash::group_hash_axioms,
    vstd::seq_lib::group_seq_properties,
    vstd::set_lib::group_set_properties,
};

/// The underlay neighbors of one node, and whether the node is currently valid.
#[derive(Debug)]
pub struct Entry {
    valid: bool,
    neighbors: HashSet<NodeId>,
}

impl Entry {
    fn new(neighbors: HashSet<NodeId>) -> (e: Self)
        ensures
            e.valid == true,
            e.neighbors@ == neighbors@,
    {
        Self { valid: true, neighbors }
    }
}

/// The graph of a node's underlay vicinity.
///
/// Each entry maps a node to whether it is valid and to the underlay neighbors it
/// announced; entries of neighbors are kept bidirectional on insertion.
#[derive(Debug)]
pub struct VicinityGraph {
    root_id: NodeId,
    /// All underlay neighbors of a node, including the root node itself.
    pub neighbors: HashMap<NodeId, Entry>,
}

/// `g` after `node` was added to the neighbor set of each node of `s` that has an entry.
pub open spec fn linked_back(
    g: Map<NodeId, (bool, Set<NodeId>)>,
    node: NodeId,
    s: Set<NodeId>,
) -> Map<NodeId, (bool, Set<NodeId>)> {
    Map::new(
        |k: NodeId| g.contains_key(k),
        |k: NodeId|
            if s.contains(k) {
                (g[k].0, g[k].1.insert(node))
            } else {
                g[k]
            },
    )
}

/// `g` after `node` was removed from the neighbor set of each node of `s` that has an entry.
pub open spec fn unlinked(
    g: Map<NodeId, (bool, Set<NodeId>)>,
    node: NodeId,
    s: Set<NodeId>,
) -> Map<NodeId, (bool, Set<NodeId>)> {
    Map::new(
        |k: NodeId| g.contains_key(k),
        |k: NodeId|
            if s.contains(k) {
                (g[k].0, g[k].1.remove(node))
            } else {
                g[k]
            },
    )
}

/// An approved underlay link: both nodes have valid entries that list each other.
pub open spec fn linked(g: Map<NodeId, (bool, Set<NodeId>)>, u: NodeId, v: NodeId) -> bool {
    &&& g.contains_key(u)
    &&& g.contains_key(v)
    &&& g[u].0
    &&& g[v].0
    &&& g[u].1.contains(v)
    &&& g[v].1.contains(u)
}

/// A simple walk over approved links that starts at `root`.
pub open spec fn is_walk_from(g: Map<NodeId, (bool, Set<NodeId>)>, root: NodeId, p: Seq<NodeId>) -> bool {
    &&& p.len() >= 1
    &&& p[0] == root
    &&& p.no_duplicates()
    &&& forall|i: int| 0 <= i < p.len() - 1 ==> #[trigger] linked(g, p[i], p[i + 1])
}

/// A path through the vicinity: a simple walk over approved links from `root` to another node.
pub open spec fn is_vicinity_path(g: Map<NodeId, (bool, Set<NodeId>)>, root: NodeId, p: Seq<NodeId>) -> bool {
    is_walk_from(g, root, p) && p.len() >= 2
}

/// `p` is a walk from `root` that properly extends the walk `prefix`.
pub open spec fn extends(g: Map<NodeId, (bool, Set<NodeId>)>, root: NodeId, prefix: Seq<NodeId>, p: Seq<NodeId>) -> bool {
    is_walk_from(g, root, p) && p.len() > prefix.len() && p.subrange(0, prefix.len() as int) == prefix
}

/// Some path listed in `out` is `p`.
pub open spec fn lists_path(out: Seq<Vec<NodeId>>, p: Seq<NodeId>) -> bool {
    exists|i: int| 0 <= i < out.len() && #[trigger] out[i]@ == p
}

impl VicinityGraph {
    /// Each node with an entry, mapped to its validity and its underlay neighbors.
    pub closed spec fn graph(&self) -> Map<NodeId, (bool, Set<NodeId>)> {
        self.neighbors@.map_values(|e: Entry| (e.valid, e.neighbors@))
    }

    /// The node whose vicinity this is.
    pub closed spec fn root(&self) -> NodeId {
        self.root_id
    }

    /// Creates the graph of the root's vicinity: a valid root without neighbors.
    pub fn new(root_id: NodeId) -> (g: Self)
        ensures
            g.root() == root_id,
            g.graph() == Map::<NodeId, (bool, Set<NodeId>)>::empty().insert(root_id, (true, Set::<NodeId>::empty())),
    {
        let mut neighbors = HashMap::new();
        neighbors.insert(root_id, Entry::new(HashSet::new()));
        let g = Self { root_id, neighbors };
        assert(g.graph() =~= Map::<NodeId, (bool, Set<NodeId>)>::empty().insert(root_id, (true, Set::<NodeId>::empty())));
        g
    }

    /// Inserts a node with its underlay neighbors, replacing an existing entry, and
    /// returns the neighbors of the replaced entry.
    ///
    /// The node is also added to the neighbor set of each of its neighbors that has an entry.
    pub fn insert(&mut self, node: NodeId, underlay_neighbors: HashSet<NodeId>) -> (res: Option<HashSet<NodeId>>)
        ensures
            final(self).root() == old(self).root(),
            final(self).graph() == linked_back(old(self).graph(), node, underlay_neighbors@).insert(
                node,
                (true, underlay_neighbors@),
            ),
            res is None <==> !old(self).graph().contains_key(node),
            res matches Some(prev) ==> prev@ == old(self).graph()[node].1,
    {
        let ghost g0 = self.graph();
        let ghost uln = underlay_neighbors@;
        let prev = self.neighbors.remove(&node);
        assert(self.graph() =~= g0.remove(node));
        self.link_back(node, &underlay_neighbors);
        let ghost linked = self.graph();
        assert(linked == linked_back(g0.remove(node), node, uln));
        self.neighbors.insert(node, Entry::new(underlay_neighbors));
        assert(self.graph() =~= linked.insert(node, (true, uln)));
        assert(linked_back(g0.remove(node), node, uln).insert(node, (true, uln)) =~= linked_back(g0, node, uln).insert(
            node,
            (true, uln),
        ));
        match prev {
            Some(entry) => Some(entry.neighbors),
            None => None,
        }
    }

    /// Adds underlay neighbors of a node: they extend an existing entry (keeping its
    /// validity) or form a new valid entry.
    ///
    /// The node is first added to the neighbor set of each of its neighbors that has an entry.
    pub fn add(&mut self, node: NodeId, underlay_neighbors: HashSet<NodeId>)
        ensures
            final(self).root() == old(self).root(),
            ({
                let linked = linked_back(old(self).graph(), node, underlay_neighbors@);
                final(self).graph() == if linked.contains_key(node) {
                    linked.insert(node, (linked[node].0, linked[node].1.union(underlay_neighbors@)))
                } else {
                    linked.insert(node, (true, underlay_neighbors@))
                }
            }),
    {
        self.link_back(node, &underlay_neighbors);
        let ghost linked = self.graph();
        let ghost uln = underlay_neighbors@;
        match self.neighbors.remove(&node) {
            Some(mut entry) => {
                extend_set(&mut entry.neighbors, &underlay_neighbors);
                let ghost e = entry;
                self.neighbors.insert(node, entry);
                assert(self.graph() =~= linked.insert(node, (linked[node].0, linked[node].1.union(uln))));
            },
            None => {
                self.neighbors.insert(node, Entry::new(underlay_neighbors));
                assert(self.graph() =~= linked.insert(node, (true, uln)));
            },
        }
    }

    /// Removes a node other than the root and returns its neighbors; the node is also
    /// removed from the neighbor set of each of them.
    pub fn remove(&mut self, node: &NodeId) -> (res: Option<HashSet<NodeId>>)
        ensures
            final(self).root() == old(self).root(),
            *node == old(self).root() || !old(self).graph().contains_key(*node) ==> res is None
                && final(self).graph() == old(self).graph(),
            *node != old(self).root() && old(self).graph().contains_key(*node) ==> (res matches Some(prev)
                && prev@ == old(self).graph()[*node].1 && final(self).graph() == unlinked(
                old(self).graph().remove(*node),
                *node,
                prev@,
            )),
    {
        if *node == self.root_id {
            return None;
        }
        let ghost g = self.graph();
        match self.neighbors.remove(node) {
            Some(entry) => {
                assert(self.graph() =~= g.remove(*node));
                let neighbors = entry.neighbors;
                self.unlink(*node, &neighbors);
                Some(neighbors)
            },
            None => {
                assert(self.graph() =~= g);
                None
            },
        }
    }

    /// Invalidates the entry of the node; returns whether there was one.
    pub fn invalidate(&mut self, node: &NodeId) -> (found: bool)
        ensures
            final(self).root() == old(self).root(),
            found == old(self).graph().contains_key(*node),
            found ==> final(self).graph() == old(self).graph().insert(*node, (false, old(self).graph()[*node].1)),
            !found ==> final(self).graph() == old(self).graph(),
    {
        self.set_validity(node, false)
    }

    /// Validates the entry of the node; returns whether there was one.
    pub fn validate(&mut self, node: &NodeId) -> (found: bool)
        ensures
            final(self).root() == old(self).root(),
            found == old(self).graph().contains_key(*node),
            found ==> final(self).graph() == old(self).graph().insert(*node, (true, old(self).graph()[*node].1)),
            !found ==> final(self).graph() == old(self).graph(),
    {
        self.set_validity(node, true)
    }

    fn set_validity(&mut self, node: &NodeId, valid: bool) -> (found: bool)
        ensures
            final(self).root() == old(self).root(),
            found == old(self).graph().contains_key(*node),
            found ==> final(self).graph() == old(self).graph().insert(*node, (valid, old(self).graph()[*node].1)),
            !found ==> final(self).graph() == old(self).graph(),
    {
        let ghost g = self.graph();
        match self.neighbors.remove(node) {
            Some(mut entry) => {
                entry.valid = valid;
                self.neighbors.insert(*node, entry);
                assert(self.graph() =~= g.insert(*node, (valid, g[*node].1)));
                true
            },
            None => {
                assert(self.graph() =~= g);
                false
            },
        }
    }

    /// Whether the graph has an entry for the node.
    pub fn contains(&self, node: &NodeId) -> (b: bool)
        ensures
            b == self.graph().contains_key(*node),
    {
        self.neighbors.contains_key(node)
    }

    /// All paths through the vicinity: every simple walk over approved links (both ends
    /// valid and listing each other) that starts at the root and has at least two nodes.
    pub fn paths(&self) -> (paths: Vec<Vec<NodeId>>)
        ensures
            forall|p: Seq<NodeId>| lists_path(paths@, p) <==> is_vicinity_path(self.graph(), self.root(), p),
    {
        let mut out: Vec<Vec<NodeId>> = Vec::new();
        let mut path: Vec<NodeId> = Vec::new();
        path.push(self.root_id);
        self.extend_paths(&mut path, &mut out);
        assert forall|p: Seq<NodeId>| lists_path(out@, p) <==> is_vicinity_path(self.graph(), self.root(), p) by {
            if is_vicinity_path(self.graph(), self.root(), p) {
                assert(p.subrange(0, 1) =~= seq![self.root()]);
            }
        }
        out
    }

    /// Appends to `out` every walk from the root that properly extends `path`.
    fn extend_paths(&self, path: &mut Vec<NodeId>, out: &mut Vec<Vec<NodeId>>)
        requires
            is_walk_from(self.graph(), self.root(), old(path)@),
        ensures
            final(path)@ == old(path)@,
            forall|p: Seq<NodeId>| lists_path(final(out)@, p) <==> lists_path(old(out)@, p) || extends(
                self.graph(),
                self.root(),
                old(path)@,
                p,
            ),
        decreases self.graph().dom().len() + 1 - old(path)@.len(),
    {
        let ghost g = self.graph();
        let ghost root = self.root();
        let ghost prefix = path@;
        let ghost out0 = out@;
        proof {
            assert(g.dom() =~= self.neighbors@.dom());
            lemma_walk_len(g, root, prefix);
        }
        let last = path[path.len() - 1];
        let entry = match self.neighbors.get(&last) {
            Some(entry) => entry,
            None => {
                proof {
                    assert forall|p: Seq<NodeId>| !extends(g, root, prefix, p) by {
                        if extends(g, root, prefix, p) {
                            let i = prefix.len() - 1;
                            assert(p[i] == p.subrange(0, prefix.len() as int)[i]);
                            assert(linked(g, p[i], p[i + 1]));
                        }
                    }
                }
                return;
            },
        };
        if !entry.valid {
            proof {
                assert forall|p: Seq<NodeId>| !extends(g, root, prefix, p) by {
                    if extends(g, root, prefix, p) {
                        let i = prefix.len() - 1;
                        assert(p[i] == p.subrange(0, prefix.len() as int)[i]);
                        assert(linked(g, p[i], p[i + 1]));
                    }
                }
            }
            return;
        }
        let ghost mut seen: Set<NodeId> = Set::empty();
        for next in it: entry.neighbors.iter()
            invariant
                path@ == prefix,
                prefix == old(path)@,
                out0 == old(out)@,
                g == self.graph(),
                root == self.root(),
                is_walk_from(g, root, prefix),
                prefix.len() <= g.dom().len(),
                g.contains_key(last) && g[last].0 && g[last].1 == entry.neighbors@,
                last == prefix[prefix.len() - 1],
                seen.subset_of(entry.neighbors@),
                forall|i: int| 0 <= i < it.index() ==> seen.contains(*#[trigger] it.seq()[i]),
                forall|p: Seq<NodeId>|
                    #![trigger lists_path(out@, p)]
                    #![trigger extends(g, root, prefix, p)]
                    lists_path(out@, p) <==> lists_path(out0, p) || (extends(g, root, prefix, p)
                    && seen.contains(p[prefix.len() as int])),
        {
            let next = *next;
            let ghost out1 = out@;
            if self.approves(next, last) && !contains_node(path, next) {
                path.push(next);
                proof {
                    lemma_extend_walk(g, root, prefix, next);
                    assert(g.dom() =~= self.neighbors@.dom());
                    lemma_walk_len(g, root, prefix.push(next));
                }
                let copy = copy_path(path);
                out.push(copy);
                let ghost out2 = out@;
                proof {
                    assert forall|p: Seq<NodeId>| lists_path(out2, p) <==> lists_path(out1, p) || p == prefix.push(next) by {
                        if p == prefix.push(next) {
                            assert(out2[out2.len() - 1]@ == p);
                        }
                        if lists_path(out2, p) && !(p == prefix.push(next)) {
                            let i = choose|i: int| 0 <= i < out2.len() && #[trigger] out2[i]@ == p;
                            assert(out1[i]@ == p);
                        }
                        if lists_path(out1, p) {
                            let i = choose|i: int| 0 <= i < out1.len() && #[trigger] out1[i]@ == p;
                            assert(out2[i]@ == p);
                        }
                    }
                }
                self.extend_paths(path, out);
                path.pop();
                proof {
                    let out3 = out@;
                    assert(path@ =~= prefix);
                    assert forall|p: Seq<NodeId>| lists_path(out3, p) <==> lists_path(out0, p) || (extends(g, root, prefix, p)
                        && seen.insert(next).contains(p[prefix.len() as int])) by {
                        lemma_extension_split(g, root, prefix, next, p);
                        assert(lists_path(out3, p) <==> lists_path(out2, p) || extends(g, root, prefix.push(next), p));
                        assert(lists_path(out2, p) <==> lists_path(out1, p) || p == prefix.push(next));
                        assert(lists_path(out1, p) <==> lists_path(out0, p) || (extends(g, root, prefix, p)
                            && seen.contains(p[prefix.len() as int])));
                    }
                }
            } else {
                proof {
                    assert forall|p: Seq<NodeId>| !(extends(g, root, prefix, p) && p[prefix.len() as int] == next) by {
                        if extends(g, root, prefix, p) && p[prefix.len() as int] == next {
                            let i = prefix.len() - 1;
                            assert(p[i] == p.subrange(0, prefix.len() as int)[i]);
                            assert(linked(g, p[i], p[i + 1]));
                            assert(p.subrange(0, prefix.len() as int) == prefix);
                            if prefix.contains(next) {
                                let j = choose|j: int| 0 <= j < prefix.len() && prefix[j] == next;
                                assert(p[j] == next);
                            }
                        }
                    }
                }
            }
            proof {
                assert(entry.neighbors@.contains(next));
                seen = seen.insert(next);
                assert(forall|p: Seq<NodeId>| lists_path(out@, p) <==> lists_path(out0, p) || (extends(g, root, prefix, p)
                    && seen.contains(p[prefix.len() as int])));
            }
        }
        proof {
            assert forall|p: Seq<NodeId>| extends(g, root, prefix, p) implies seen.contains(p[prefix.len() as int]) by {
                let i = prefix.len() - 1;
                assert(p[i] == p.subrange(0, prefix.len() as int)[i]);
                assert(linked(g, p[i], p[i + 1]));
                assert(entry.neighbors@.contains(p[prefix.len() as int]));
            }
        }
    }

    /// Whether `node` has a valid entry that lists `from` (the link back from `node`).
    fn approves(&self, node: NodeId, from: NodeId) -> (b: bool)
        ensures
            b == (self.graph().contains_key(node) && self.graph()[node].0 && self.graph()[node].1.contains(from)),
    {
        match self.neighbors.get(&node) {
            Some(entry) => entry.valid && entry.neighbors.contains(&from),
            None => false,
        }
    }

    /// Adds `node` to the neighbor set of every node in `underlay_neighbors` that has an entry.
    fn link_back(&mut self, node: NodeId, underlay_neighbors: &HashSet<NodeId>)
        ensures
            final(self).graph() == linked_back(old(self).graph(), node, underlay_neighbors@),
            final(self).root() == old(self).root(),
    {
        let ghost mut seen: Set<NodeId> = Set::empty();
        for neighbor in it: underlay_neighbors.iter()
            invariant
                self.graph() == linked_back(old(self).graph(), node, seen),
                self.root() == old(self).root(),
                seen.subset_of(underlay_neighbors@),
                forall|i: int| 0 <= i < it.index() ==> seen.contains(*#[trigger] it.seq()[i]),
        {
            let ghost before = self.neighbors@;
            let ghost before_g = self.graph();
            if let Some(mut entry) = self.neighbors.remove(neighbor) {
                entry.neighbors.insert(node);
                self.neighbors.insert(*neighbor, entry);
                assert(entry.neighbors@ == before[*neighbor].neighbors@.insert(node));
                assert(self.neighbors@ == before.insert(*neighbor, entry));
            } else {
                assert(!before.contains_key(*neighbor));
                assert(self.neighbors@ == before);
            }
            proof {
                assert(underlay_neighbors@.contains(*neighbor));
                let ghost prev_seen = seen;
                seen = seen.insert(*neighbor);
                assert forall|k: NodeId| #[trigger] self.graph().contains_key(k) implies self.graph()[k]
                    == linked_back(old(self).graph(), node, seen)[k] by {
                    if k == *neighbor {
                        let o = old(self).graph()[k];
                        assert(before_g[k] == linked_back(old(self).graph(), node, prev_seen)[k]);
                        assert(self.graph()[k] == (before_g[k].0, before_g[k].1.insert(node)));
                        if prev_seen.contains(k) {
                            assert(o.1.insert(node).insert(node) =~= o.1.insert(node));
                        }
                        assert(self.graph()[k].1 =~= linked_back(old(self).graph(), node, seen)[k].1);
                    } else {
                        assert(self.graph()[k] == before_g[k]);
                    }
                }
                assert(self.graph() =~= linked_back(old(self).graph(), node, seen));
            }
        }
        proof {
            assert(seen =~= underlay_neighbors@);
        }
    }

    /// Removes `node` from the neighbor set of every node in `underlay_neighbors` that has an entry.
    fn unlink(&mut self, node: NodeId, underlay_neighbors: &HashSet<NodeId>)
        ensures
            final(self).graph() == unlinked(old(self).graph(), node, underlay_neighbors@),
            final(self).root() == old(self).root(),
    {
        let ghost mut seen: Set<NodeId> = Set::empty();
        for neighbor in it: underlay_neighbors.iter()
            invariant
                self.graph() == unlinked(old(self).graph(), node, seen),
                self.root() == old(self).root(),
                seen.subset_of(underlay_neighbors@),
                forall|i: int| 0 <= i < it.index() ==> seen.contains(*#[trigger] it.seq()[i]),
        {
            let ghost before = self.neighbors@;
            let ghost before_g = self.graph();
            if let Some(mut entry) = self.neighbors.remove(neighbor) {
                entry.neighbors.remove(&node);
                self.neighbors.insert(*neighbor, entry);
                assert(entry.neighbors@ == before[*neighbor].neighbors@.remove(node));
                assert(self.neighbors@ == before.insert(*neighbor, entry));
            } else {
                assert(!before.contains_key(*neighbor));
                assert(self.neighbors@ == before);
            }
            proof {
                assert(underlay_neighbors@.contains(*neighbor));
                let ghost prev_seen = seen;
                seen = seen.insert(*neighbor);
                assert forall|k: NodeId| #[trigger] self.graph().contains_key(k) implies self.graph()[k]
                    == unlinked(old(self).graph(), node, seen)[k] by {
                    if k == *neighbor {
                        let o = old(self).graph()[k];
                        assert(before_g[k] == unlinked(old(self).graph(), node, prev_seen)[k]);
                        assert(self.graph()[k] == (before_g[k].0, before_g[k].1.remove(node)));
                        if prev_seen.contains(k) {
                            assert(o.1.remove(node).remove(node) =~= o.1.remove(node));
                        }
                        assert(self.graph()[k].1 =~= unlinked(old(self).graph(), node, seen)[k].1);
                    } else {
                        assert(self.graph()[k] == before_g[k]);
                    }
                }
                assert(self.graph() =~= unlinked(old(self).graph(), node, seen));
            }
        }
        proof {
            assert(seen =~= underlay_neighbors@);
        }
    }
}

/// Whether the node occurs in the path.
fn contains_node(path: &Vec<NodeId>, node: NodeId) -> (b: bool)
    ensures
        b == path@.contains(node),
{
    let mut i: usize = 0;
    while i < path.len()
        invariant
            i <= path.len(),
            forall|j: int| 0 <= j < i ==> path@[j] != node,
        decreases path.len() - i,
    {
        if path[i] == node {
            return true;
        }
        i = i + 1;
    }
    false
}

/// A walk from the root visits distinct nodes with entries (besides the root), so it is
/// no longer than the number of entries plus one.
proof fn lemma_walk_len(g: Map<NodeId, (bool, Set<NodeId>)>, root: NodeId, p: Seq<NodeId>)
    requires
        is_walk_from(g, root, p),
        g.dom().finite(),
    ensures
        p.len() <= g.dom().len() + 1,
        p.len() >= 2 ==> p.len() <= g.dom().len(),
{
    let s = g.dom().insert(root);
    assert forall|x: NodeId| p.to_set().contains(x) implies s.contains(x) by {
        let i = choose|i: int| 0 <= i < p.len() && p[i] == x;
        if i > 0 {
            let k = i - 1;
            assert(linked(g, p[k], p[k + 1]));
        }
    }
    p.unique_seq_to_set();
    vstd::set_lib::lemma_len_subset(p.to_set(), s);
    if p.len() >= 2 {
        let k: int = 0;
        assert(linked(g, p[k], p[k + 1]));
        assert(g.dom().contains(root));
        assert(s =~= g.dom());
    }
}

/// Extending a walk by a linked node that it does not visit yet gives a walk.
proof fn lemma_extend_walk(g: Map<NodeId, (bool, Set<NodeId>)>, root: NodeId, p: Seq<NodeId>, next: NodeId)
    requires
        is_walk_from(g, root, p),
        linked(g, p[p.len() - 1], next),
        !p.contains(next),
    ensures
        is_walk_from(g, root, p.push(next)),
{
    let q = p.push(next);
    assert forall|i: int| 0 <= i < q.len() - 1 implies #[trigger] linked(g, q[i], q[i + 1]) by {
        if i < p.len() - 1 {
            assert(linked(g, p[i], p[i + 1]));
        }
    }
    assert forall|i: int, j: int| 0 <= i < q.len() && 0 <= j < q.len() && i != j implies q[i] != q[j] by {
        if i < p.len() && j < p.len() {
        } else if i == p.len() {
            assert(!p.contains(next));
            if q[i] == q[j] {
                assert(p[j] == next);
            }
        } else {
            if q[i] == q[j] {
                assert(p[i] == next);
            }
        }
    }
}

/// The proper extensions of `prefix` that continue with `next` are `prefix + next` and
/// the proper extensions of `prefix + next`.
proof fn lemma_extension_split(
    g: Map<NodeId, (bool, Set<NodeId>)>,
    root: NodeId,
    prefix: Seq<NodeId>,
    next: NodeId,
    p: Seq<NodeId>,
)
    requires
        is_walk_from(g, root, prefix.push(next)),
    ensures
        (extends(g, root, prefix, p) && p[prefix.len() as int] == next) <==> (p == prefix.push(next) || extends(
            g,
            root,
            prefix.push(next),
            p,
        )),
{
    let q = prefix.push(next);
    if extends(g, root, prefix, p) && p[prefix.len() as int] == next {
        if p.len() > q.len() {
            assert(p.subrange(0, q.len() as int) =~= q);
        } else {
            assert(p =~= q);
        }
    }
    if p == q {
        assert(p.subrange(0, prefix.len() as int) =~= prefix);
    }
    if extends(g, root, q, p) {
        assert(p.subrange(0, prefix.len() as int) =~= q.subrange(0, prefix.len() as int));
        assert(q.subrange(0, prefix.len() as int) =~= prefix);
        assert(p[prefix.len() as int] == p.subrange(0, q.len() as int)[prefix.len() as int]);
    }
}

/// Adds every element of `src` to `target`.
fn extend_set(target: &mut HashSet<NodeId>, src: &HashSet<NodeId>)
    ensures
        final(target)@ == old(target)@.union(src@),
{
    let ghost mut seen: Set<NodeId> = Set::empty();
    for x in it: src.iter()
        invariant
            target@ == old(target)@.union(seen),
            seen.subset_of(src@),
            forall|i: int| 0 <= i < it.index() ==> seen.contains(*#[trigger] it.seq()[i]),
    {
        target.insert(*x);
        proof {
            assert(src@.contains(*x));
            seen = seen.insert(*x);
            assert(target@ =~= old(target)@.union(seen));
        }
    }
    proof {
        assert(seen =~= src@);
    }
}

/// Invalidating a valid node and validating it again gives back the graph as it was.
pub proof fn law_invalidate_then_validate(g: Map<NodeId, (bool, Set<NodeId>)>, node: NodeId)
    requires
        g.contains_key(node),
        g[node].0,
    ensures
        g.insert(node, (false, g[node].1)).insert(node, (true, g.insert(node, (false, g[node].1))[node].1)) == g,
{
    assert(g.insert(node, (false, g[node].1)).insert(node, (true, g[node].1)) =~= g);
}

/// The vicinity paths never visit an invalid node: every node of a path but the root has
/// a valid entry.
pub proof fn law_paths_avoid_invalid(g: Map<NodeId, (bool, Set<NodeId>)>, root: NodeId, p: Seq<NodeId>, i: int)
    requires
        is_vicinity_path(g, root, p),
        1 <= i < p.len(),
    ensures
        g.contains_key(p[i]) && g[p[i]].0,
{
    let j = i - 1;
    assert(linked(g, p[j], p[j + 1]));
}

} // verus!
