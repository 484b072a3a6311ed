//! Processing of the protocol messages that pass through the node: the failures they
//! report, and their forwarding to the next hop of their source route.

use vstd::prelude::*;

use std::collections::HashMap;

use crate::domain::{Contact, ContactState, Micros, NodeId, SourceRoute, UnderlayNeighborId};
use crate::use_cases::handle_overlay_discovery::{uses_link, Link};
use crate::use_cases::HandlingResult;

verus! {

broadcast use vstd::std_specs::hash::group_hash_axioms;

/// What happens to a message at this node.
#[derive(Debug)]
pub enum ForwardingStep {
    /// The message has no source route, or its route ends here: the other use cases handle
    /// it.
    NotHandled,
    /// The message's route is not at this node: the message is dropped.
    Dropped,
    /// The next hop is not an underlay neighbor: the message is dropped; if it carries a
    /// nonce, a SegmentFailure error about the link to the next hop goes back along the
    /// route.
    NextHopFailed { error: Option<(Link, SourceRoute)> },
    /// The message goes on to the next hop along the route.
    Forward(SourceRoute),
}

impl ForwardingStep {
    /// Whether the message was consumed here.
    pub fn handling_result(&self) -> (r: HandlingResult)
        ensures
            r == if *self is NotHandled {
                HandlingResult::NotHandled
            } else {
                HandlingResult::Handled
            },
    {
        match self {
            ForwardingStep::NotHandled => HandlingResult::NotHandled,
            _ => HandlingResult::Handled,
        }
    }
}

/// Extracts information from every protocol message that reaches the node, before it is
/// forwarded or handled by the other use cases: here, the failures of links that error
/// messages report.
#[derive(Debug, Clone, Copy, PartialEq, Eq, Default)]
pub struct ForwardProtocolMessage;

/// The link has the node at one of its ends.
pub open spec fn link_touches(link: Link, node: NodeId) -> bool {
    link.0 == node || link.1 == node
}

/// The contact's active path runs over the link.
pub open spec fn path_over(c: Contact, link: Link) -> bool {
    c.path is Some && uses_link(c.path->0@, link)
}

/// A not-via report: the link failed at the time given.
pub type NotVia = (Link, Micros);

/// A report of the list applies to the contact: the contact is valid, its active path was
/// last validated before the report's time and runs over the reported link, which does
/// not touch this node.
pub open spec fn not_via_hits(c: Contact, validated_at: Option<Micros>, root: NodeId, not_via: Seq<NotVia>) -> bool {
    &&& c.state == ContactState::Valid
    &&& c.path is Some
    &&& validated_at is Some
    &&& exists|k: int|
        0 <= k < not_via.len() && !link_touches(#[trigger] not_via[k].0, root) && validated_at->0 < not_via[k].1
            && uses_link(c.path->0@, not_via[k].0)
}

impl ForwardProtocolMessage {
    /// Applies the not-via reports that a message carries: a valid contact whose active path
    /// was validated (at `validated_at`, by index) before a report and runs over its link
    /// becomes invalid. Reports about links of this node itself are left out, as this node
    /// knows better.
    pub fn extract_not_via_data(
        &self,
        root: NodeId,
        not_via: &Vec<NotVia>,
        contacts: &mut Vec<Contact>,
        validated_at: &Vec<Option<Micros>>,
    )
        requires
            validated_at@.len() == old(contacts)@.len(),
        ensures
            final(contacts)@.len() == old(contacts)@.len(),
            forall|i: int| 0 <= i < old(contacts)@.len() ==> {
                &&& (#[trigger] final(contacts)@[i]).id == old(contacts)@[i].id
                &&& final(contacts)@[i].path == old(contacts)@[i].path
                &&& final(contacts)@[i].state == if not_via_hits(old(contacts)@[i], validated_at@[i], root, not_via@) {
                    ContactState::Invalid
                } else {
                    old(contacts)@[i].state
                }
            },
    {
        let mut i: usize = 0;
        while i < contacts.len()
            invariant
                i <= contacts@.len(),
                validated_at@.len() == old(contacts)@.len(),
                contacts@.len() == old(contacts)@.len(),
                forall|j: int| i <= j < contacts@.len() ==> #[trigger] contacts@[j] == old(contacts)@[j],
                forall|j: int| 0 <= j < i ==> {
                    &&& (#[trigger] contacts@[j]).id == old(contacts)@[j].id
                    &&& contacts@[j].path == old(contacts)@[j].path
                    &&& contacts@[j].state == if not_via_hits(old(contacts)@[j], validated_at@[j], root, not_via@) {
                        ContactState::Invalid
                    } else {
                        old(contacts)@[j].state
                    }
                },
            decreases contacts@.len() - i,
        {
            let hit = match (&contacts[i].path, validated_at[i]) {
                (Some(p), Some(t)) => contacts[i].state == ContactState::Valid && reported_over(root, not_via, p, t),
                _ => false,
            };
            if hit {
                contacts[i].state = ContactState::Invalid;
            }
            i = i + 1;
        }
    }

    /// A SegmentFailure reports that the link failed: every contact whose active path runs
    /// over it becomes invalid. A report about a link of this node itself is ignored, as
    /// this node knows better.
    pub fn extract_failed_contact(&self, root: NodeId, link: Link, contacts: &mut Vec<Contact>)
        ensures
            final(contacts)@.len() == old(contacts)@.len(),
            forall|i: int| 0 <= i < old(contacts)@.len() ==> {
                &&& (#[trigger] final(contacts)@[i]).id == old(contacts)@[i].id
                &&& final(contacts)@[i].path == old(contacts)@[i].path
                &&& final(contacts)@[i].state == if !link_touches(link, root) && path_over(old(contacts)@[i], link) {
                    ContactState::Invalid
                } else {
                    old(contacts)@[i].state
                }
            },
    {
        if link.0 == root || link.1 == root {
            return;
        }
        let mut i: usize = 0;
        while i < contacts.len()
            invariant
                i <= contacts@.len(),
                !link_touches(link, root),
                contacts@.len() == old(contacts)@.len(),
                forall|j: int| i <= j < contacts@.len() ==> #[trigger] contacts@[j] == old(contacts)@[j],
                forall|j: int| 0 <= j < i ==> {
                    &&& (#[trigger] contacts@[j]).id == old(contacts)@[j].id
                    &&& contacts@[j].path == old(contacts)@[j].path
                    &&& contacts@[j].state == if path_over(old(contacts)@[j], link) {
                        ContactState::Invalid
                    } else {
                        old(contacts)@[j].state
                    }
                },
            decreases contacts@.len() - i,
        {
            let over = match &contacts[i].path {
                Some(p) => crate::use_cases::handle_overlay_discovery::path_uses_link(p, link),
                None => false,
            };
            if over {
                contacts[i].state = ContactState::Invalid;
            }
            i = i + 1;
        }
    }

    /// The path back to the source of a message: the hops its route traveled, reversed;
    /// without a route, the source itself.
    pub fn extract_path_to_source(&self, route: Option<&SourceRoute>, source: NodeId) -> (path: Vec<NodeId>)
        requires
            route matches Some(r) ==> r.wf(),
        ensures
            route matches Some(r) ==> path@ == r.traveled().reverse(),
            route is None ==> path@ == seq![source],
    {
        match route {
            Some(r) => r.reversed().hops,
            None => {
                let mut p: Vec<NodeId> = Vec::new();
                p.push(source);
                p
            },
        }
    }

    /// Forwards a message (with its source route, and whether it carries a nonce) to the
    /// next hop of its route, if it is at this node and the next hop is an underlay
    /// neighbor (see [ForwardingStep]).
    pub fn handle_forwarding(
        &self,
        root: NodeId,
        route: Option<&SourceRoute>,
        has_nonce: bool,
        uln_table: &HashMap<NodeId, UnderlayNeighborId>,
    ) -> (step: ForwardingStep)
        requires
            route matches Some(r) ==> r.wf(),
        ensures
            route is None ==> step is NotHandled,
            route matches Some(r) ==> {
                let next = r.hops@[r.current + 1];
                if r.hops@[r.current as int] != root {
                    step is Dropped
                } else if r.current + 1 >= r.hops@.len() {
                    step is NotHandled
                } else if !uln_table@.contains_key(next) {
                    step matches ForwardingStep::NextHopFailed { error } && if has_nonce {
                        error matches Some((link, back)) && link == (root, next) && back.hops@ == r.traveled().reverse()
                            && back.current == 0
                    } else {
                        error is None
                    }
                } else {
                    step matches ForwardingStep::Forward(f) && f.hops@ == r.hops@ && f.current == r.current + 1
                }
            },
    {
        let r = match route {
            Some(r) => r,
            None => return ForwardingStep::NotHandled,
        };
        if r.current_hop() != root {
            return ForwardingStep::Dropped;
        }
        let next = match r.next_hop() {
            Some(n) => n,
            None => return ForwardingStep::NotHandled,
        };
        if !uln_table.contains_key(&next) {
            let error = if has_nonce {
                Some(((root, next), r.reversed()))
            } else {
                None
            };
            return ForwardingStep::NextHopFailed { error };
        }
        ForwardingStep::Forward(r.advanced())
    }
}

/// Whether a report of the list, about a link that does not touch this node, is newer
/// than `validated` and names a link of the path.
fn reported_over(root: NodeId, not_via: &Vec<NotVia>, path: &Vec<NodeId>, validated: Micros) -> (b: bool)
    ensures
        b == exists|k: int|
            0 <= k < not_via@.len() && !link_touches(#[trigger] not_via@[k].0, root) && validated < not_via@[k].1
                && uses_link(path@, not_via@[k].0),
{
    let mut k: usize = 0;
    while k < not_via.len()
        invariant
            k <= not_via@.len(),
            forall|j: int|
                0 <= j < k ==> !(!link_touches(#[trigger] not_via@[j].0, root) && validated < not_via@[j].1 && uses_link(
                    path@,
                    not_via@[j].0,
                )),
        decreases not_via@.len() - k,
    {
        let (link, age) = not_via[k];
        if link.0 != root && link.1 != root && validated < age
            && crate::use_cases::handle_overlay_discovery::path_uses_link(path, link) {
            assert(!link_touches(not_via@[k as int].0, root));
            return true;
        }
        k = k + 1;
    }
    false
}

} // verus!
