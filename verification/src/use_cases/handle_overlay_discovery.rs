//! Answers to overlay discovery: what a node does with a FindNodeReq addressed to it.

use vstd::prelude::*;

use crate::domain::{Contact, GroupingError, NodeId, NODE_ID_BITS};

verus! {

/// Configuration of the overlay-discovery handling.
#[derive(Debug, Clone, Copy, PartialEq, Eq, Structural)]
pub struct OverlayDiscoveryConfig {
    /// Number of grouped bits for the shared prefix of two node ids (at least 1).
    pub shared_prefix_bits_grouping: usize,
}

impl Default for OverlayDiscoveryConfig {
    fn default() -> (c: Self)
        ensures
            c.shared_prefix_bits_grouping == 1,
    {
        OverlayDiscoveryConfig { shared_prefix_bits_grouping: 1 }
    }
}

/// A link between two nodes that must not be used.
pub type Link = (NodeId, NodeId);

/// What a node answers to a FindNodeReq.
#[derive(Debug, Clone, Copy, PartialEq, Eq, Structural)]
pub enum FindNodeOutcome {
    /// The request is not for this node, or asks the impossible: drop it.
    Ignore,
    /// Forward the request to the contact with the index among the closest ones, extending
    /// its source route by the contact's path.
    Forward(usize),
    /// Answer with a FindNodeRsp carrying all the closest contacts.
    RespondClosest,
    /// Answer with a FindNodeRsp without contacts.
    RespondEmpty,
    /// Answer with a DeadEnd error.
    DeadEnd,
}

/// The hop from the `i`-th node of the path to the next is the link, in either direction.
pub open spec fn link_at(path: Seq<NodeId>, i: int, link: Link) -> bool {
    (path[i] == link.0 && path[i + 1] == link.1) || (path[i] == link.1 && path[i + 1] == link.0)
}

/// The path runs over the link, in either direction.
pub open spec fn uses_link(path: Seq<NodeId>, link: Link) -> bool {
    exists|i: int| 0 <= i < path.len() - 1 && #[trigger] link_at(path, i, link)
}

/// The contact's path avoids all the links.
pub open spec fn avoids(c: Contact, links: Seq<Link>) -> bool {
    forall|j: int| 0 <= j < links.len() ==> !uses_link(c.path_view().unwrap_or(seq![]), #[trigger] links[j])
}

/// Index of the first of the closest contacts whose path avoids both the local and the
/// requested links to avoid, or -1.
pub open spec fn first_usable(closest: Seq<(usize, Contact)>, local: Seq<Link>, requested: Seq<Link>) -> int
    decreases closest.len(),
{
    if closest.len() == 0 {
        -1
    } else {
        let i = first_usable(closest.drop_last(), local, requested);
        if i >= 0 {
            i
        } else if avoids(closest.last().1, local) && avoids(closest.last().1, requested) {
            closest.len() - 1
        } else {
            -1
        }
    }
}

/// The answer to a FindNodeReq for `target` from `source`, addressed to `destination`, by
/// the node `root` whose own distance to the target is `own_distance`; `closest` are the
/// contacts closest to the target with their distances.
///
/// Only requests for this node are answered. A request for this node's own id is answered
/// with the closest contacts if it is exact, and dropped otherwise. Else the first closest
/// contact whose path avoids the links to avoid is considered: the request goes on to it
/// if this node's distance is larger than the contact's and the contact is not the
/// request's source; otherwise an exact request ends in a DeadEnd and another is answered
/// with the closest contacts. Without such a contact an exact request ends in a DeadEnd
/// and another is answered without contacts.
pub open spec fn find_node_outcome(
    root: NodeId,
    destination: NodeId,
    source: NodeId,
    exact: bool,
    target: NodeId,
    own_distance: usize,
    closest: Seq<(usize, Contact)>,
    local: Seq<Link>,
    requested: Seq<Link>,
) -> FindNodeOutcome {
    let i = first_usable(closest, local, requested);
    if destination != root {
        FindNodeOutcome::Ignore
    } else if target == root {
        if exact {
            FindNodeOutcome::RespondClosest
        } else {
            FindNodeOutcome::Ignore
        }
    } else if i >= 0 && makes_progress(own_distance, source, closest[i]) {
        FindNodeOutcome::Forward(i as usize)
    } else if exact {
        FindNodeOutcome::DeadEnd
    } else if i < 0 {
        FindNodeOutcome::RespondEmpty
    } else {
        FindNodeOutcome::RespondClosest
    }
}

/// Forwarding to the contact (with its distance to the target) brings the request closer:
/// the contact is nearer to the target than this node and is not the request's source.
pub open spec fn makes_progress(own_distance: usize, source: NodeId, c: (usize, Contact)) -> bool {
    own_distance > c.0 && source != c.1.id
}

/// Answers FindNodeReqs addressed to this node.
#[derive(Debug)]
pub struct HandleOverlayDiscovery {
    config: OverlayDiscoveryConfig,
}

impl HandleOverlayDiscovery {
    /// The configuration.
    pub closed spec fn config_view(&self) -> OverlayDiscoveryConfig {
        self.config
    }

    /// Creates the handler; fails if the grouping is larger than a node id.
    pub fn new(config: OverlayDiscoveryConfig) -> (res: Result<Self, GroupingError>)
        ensures
            config.shared_prefix_bits_grouping > NODE_ID_BITS <==> res is Err,
            res matches Err(e) ==> e == (GroupingError::Invalid { group_size: config.shared_prefix_bits_grouping }),
            res matches Ok(h) ==> h.config_view() == config,
    {
        if config.shared_prefix_bits_grouping > NODE_ID_BITS as usize {
            return Err(GroupingError::Invalid { group_size: config.shared_prefix_bits_grouping });
        }
        Ok(HandleOverlayDiscovery { config })
    }

    /// Decides the answer to a FindNodeReq (see [find_node_outcome]).
    pub fn handle_find_node_req(
        &self,
        root: NodeId,
        destination: NodeId,
        source: NodeId,
        exact: bool,
        target: NodeId,
        own_distance: usize,
        closest: &Vec<(usize, Contact)>,
        local: &Vec<Link>,
        requested: &Vec<Link>,
    ) -> (outcome: FindNodeOutcome)
        ensures
            outcome == find_node_outcome(root, destination, source, exact, target, own_distance, closest@, local@, requested@),
    {
        if destination != root {
            return FindNodeOutcome::Ignore;
        }
        if target == root {
            return if exact {
                FindNodeOutcome::RespondClosest
            } else {
                FindNodeOutcome::Ignore
            };
        }
        match first_usable_index(closest, local, requested) {
            None => if exact {
                FindNodeOutcome::DeadEnd
            } else {
                FindNodeOutcome::RespondEmpty
            },
            Some(i) => {
                if own_distance > closest[i].0 && source != closest[i].1.id {
                    FindNodeOutcome::Forward(i)
                } else if exact {
                    FindNodeOutcome::DeadEnd
                } else {
                    FindNodeOutcome::RespondClosest
                }
            },
        }
    }
}

/// Whether the path runs over the link, in either direction.
pub(crate) fn path_uses_link(path: &Vec<NodeId>, link: Link) -> (b: bool)
    ensures
        b == uses_link(path@, link),
{
    if path.len() < 2 {
        return false;
    }
    let mut i: usize = 0;
    while i + 1 < path.len()
        invariant
            path.len() >= 2,
            i + 1 <= path.len(),
            forall|j: int| 0 <= j < i ==> !#[trigger] link_at(path@, j, link),
        decreases path.len() - i,
    {
        if (path[i] == link.0 && path[i + 1] == link.1) || (path[i] == link.1 && path[i + 1] == link.0) {
            assert(link_at(path@, i as int, link));
            return true;
        }
        i = i + 1;
    }
    false
}

/// Whether the contact's path avoids all the links.
fn avoids_links(c: &Contact, links: &Vec<Link>) -> (b: bool)
    ensures
        b == avoids(*c, links@),
{
    let empty: Vec<NodeId> = Vec::new();
    let path = match &c.path {
        Some(p) => p,
        None => &empty,
    };
    assert(path@ == c.path_view().unwrap_or(seq![]));
    let mut j: usize = 0;
    while j < links.len()
        invariant
            j <= links@.len(),
            path@ == c.path_view().unwrap_or(seq![]),
            forall|k: int| 0 <= k < j ==> !uses_link(path@, #[trigger] links@[k]),
        decreases links@.len() - j,
    {
        if path_uses_link(path, links[j]) {
            return false;
        }
        j = j + 1;
    }
    true
}

/// Index of the first of the closest contacts whose path avoids both kinds of links.
fn first_usable_index(closest: &Vec<(usize, Contact)>, local: &Vec<Link>, requested: &Vec<Link>) -> (r: Option<usize>)
    ensures
        r is None <==> first_usable(closest@, local@, requested@) < 0,
        r matches Some(i) ==> i == first_usable(closest@, local@, requested@) && i < closest@.len(),
{
    let mut i: usize = 0;
    while i < closest.len()
        invariant
            i <= closest@.len(),
            first_usable(closest@.take(i as int), local@, requested@) < 0,
        decreases closest@.len() - i,
    {
        assert(closest@.take(i + 1).drop_last() == closest@.take(i as int));
        if avoids_links(&closest[i].1, local) && avoids_links(&closest[i].1, requested) {
            proof {
                lemma_first_usable_prefix(closest@, local@, requested@, i as int + 1);
            }
            return Some(i);
        }
        i = i + 1;
    }
    assert(closest@.take(closest@.len() as int) == closest@);
    None
}

/// Once a prefix has a usable contact, the whole sequence has the same first one.
proof fn lemma_first_usable_prefix(closest: Seq<(usize, Contact)>, local: Seq<Link>, requested: Seq<Link>, k: int)
    requires
        0 <= k <= closest.len(),
        first_usable(closest.take(k), local, requested) >= 0,
    ensures
        first_usable(closest, local, requested) == first_usable(closest.take(k), local, requested),
    decreases closest.len() - k,
{
    if k < closest.len() {
        assert(closest.take(k + 1).drop_last() == closest.take(k));
        lemma_first_usable_prefix(closest, local, requested, k + 1);
    } else {
        assert(closest.take(k) == closest);
    }
}

/// A FindNodeReq is only forwarded to a closest contact that is not its source and whose
/// path avoids every link to avoid, and only by the node it is addressed to, when that
/// node's distance to the target is larger than the contact's.
pub proof fn law_forwarding_is_safe(
    root: NodeId,
    destination: NodeId,
    source: NodeId,
    exact: bool,
    target: NodeId,
    own_distance: usize,
    closest: Seq<(usize, Contact)>,
    local: Seq<Link>,
    requested: Seq<Link>,
)
    requires
        closest.len() <= usize::MAX,
    ensures
        find_node_outcome(root, destination, source, exact, target, own_distance, closest, local, requested) matches FindNodeOutcome::Forward(i) ==> {
            &&& destination == root
            &&& target != root
            &&& 0 <= i < closest.len()
            &&& closest[i as int].1.id != source
            &&& own_distance > closest[i as int].0
            &&& avoids(closest[i as int].1, local)
            &&& avoids(closest[i as int].1, requested)
        },
{
    lemma_first_usable_bounds(closest, local, requested);
}

/// An exact FindNodeReq for another node's id, addressed to this node, either makes
/// progress (it goes on to a usable contact closer to the target than this node, other than
/// its source) or ends in a DeadEnd: it is never answered with contacts.
pub proof fn law_exact_request_forwards_or_dead_ends(
    root: NodeId,
    source: NodeId,
    target: NodeId,
    own_distance: usize,
    closest: Seq<(usize, Contact)>,
    local: Seq<Link>,
    requested: Seq<Link>,
)
    requires
        target != root,
        closest.len() <= usize::MAX,
    ensures
        ({
            let o = find_node_outcome(root, root, source, true, target, own_distance, closest, local, requested);
            ||| o is DeadEnd
            ||| o matches FindNodeOutcome::Forward(i) && 0 <= i < closest.len() && own_distance > closest[i as int].0
                && closest[i as int].1.id != source
        }),
{
    lemma_first_usable_bounds(closest, local, requested);
}

/// A FindNodeReq that is not exact, for another node's id and addressed to this node, never
/// ends in a DeadEnd: it makes progress, or is answered with the closest contacts (with none
/// if no contact's path avoids the links to avoid).
pub proof fn law_inexact_request_never_dead_ends(
    root: NodeId,
    source: NodeId,
    target: NodeId,
    own_distance: usize,
    closest: Seq<(usize, Contact)>,
    local: Seq<Link>,
    requested: Seq<Link>,
)
    requires
        target != root,
    ensures
        ({
            let o = find_node_outcome(root, root, source, false, target, own_distance, closest, local, requested);
            &&& !(o is DeadEnd)
            &&& o is RespondEmpty ==> forall|j: int| 0 <= j < closest.len() ==> !(avoids(#[trigger] closest[j].1, local)
                && avoids(closest[j].1, requested))
        }),
{
    lemma_first_usable_none(closest, local, requested);
}

/// Without a first usable contact no contact avoids both lists of links.
proof fn lemma_first_usable_none(closest: Seq<(usize, Contact)>, local: Seq<Link>, requested: Seq<Link>)
    ensures
        first_usable(closest, local, requested) < 0 ==> forall|j: int| 0 <= j < closest.len() ==> !(avoids(
            #[trigger] closest[j].1,
            local,
        ) && avoids(closest[j].1, requested)),
    decreases closest.len(),
{
    if closest.len() > 0 {
        let rest = closest.drop_last();
        lemma_first_usable_none(rest, local, requested);
        if first_usable(closest, local, requested) < 0 {
            assert(first_usable(rest, local, requested) < 0);
            assert forall|j: int| 0 <= j < closest.len() implies !(avoids(#[trigger] closest[j].1, local) && avoids(
                closest[j].1,
                requested,
            )) by {
                if j < rest.len() {
                    assert(rest[j] == closest[j]);
                } else {
                    assert(closest[j] == closest.last());
                }
            }
        }
    }
}

/// A request for another node's id, addressed to this node, whose first usable contact is
/// closer to the target than this node and is not its source, goes on to that contact,
/// exact or not.
pub proof fn law_progress_is_forwarded(
    root: NodeId,
    source: NodeId,
    exact: bool,
    target: NodeId,
    own_distance: usize,
    closest: Seq<(usize, Contact)>,
    local: Seq<Link>,
    requested: Seq<Link>,
)
    requires
        target != root,
        closest.len() <= usize::MAX,
        first_usable(closest, local, requested) >= 0,
        own_distance > closest[first_usable(closest, local, requested)].0,
        closest[first_usable(closest, local, requested)].1.id != source,
    ensures
        find_node_outcome(root, root, source, exact, target, own_distance, closest, local, requested)
            == FindNodeOutcome::Forward(first_usable(closest, local, requested) as usize),
{
}

/// The first usable contact is one of the closest contacts, and usable.
proof fn lemma_first_usable_bounds(closest: Seq<(usize, Contact)>, local: Seq<Link>, requested: Seq<Link>)
    ensures
        first_usable(closest, local, requested) < closest.len(),
        first_usable(closest, local, requested) >= 0 ==> avoids(closest[first_usable(closest, local, requested)].1, local)
            && avoids(closest[first_usable(closest, local, requested)].1, requested),
    decreases closest.len(),
{
    if closest.len() > 0 {
        let rest = closest.drop_last();
        lemma_first_usable_bounds(rest, local, requested);
        let i = first_usable(rest, local, requested);
        if i >= 0 {
            assert(closest[i] == rest[i]);
        }
    }
}

} // verus!
