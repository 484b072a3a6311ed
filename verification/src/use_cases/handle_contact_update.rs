//! Reactions to changes of the routing table: route updates for the overlay neighbors and
//! the invalidation of contacts whose paths run over a lost underlay neighbor.

use vstd::prelude::*;

use crate::domain::{copy_contact, Contact, ContactState, NodeId};
use crate::use_cases::ContactEvent;

verus! {

/// Configuration of the contact-update handling.
#[derive(Debug, Clone, Copy, PartialEq, Eq, Structural)]
pub struct HandleContactUpdateConfig {
    /// Number of overlay neighbors to notify of a change (at least 1).
    pub radius: usize,
    /// Number of bits grouped for the closeness of contacts (at least 1).
    pub grouping_bits: u8,
}

impl Default for HandleContactUpdateConfig {
    fn default() -> (c: Self)
        ensures
            c.radius == 3,
            c.grouping_bits == 1,
    {
        HandleContactUpdateConfig { radius: 3, grouping_bits: 1 }
    }
}

/// What an UpdateRouteReq says about a contact.
#[derive(Debug, Clone, Copy, PartialEq, Eq, Structural)]
pub enum RouteUpdateActionType {
    /// A new contact.
    Announce,
    /// The contact's path changed.
    Change,
    /// The contact cannot be reached.
    Unreachable,
    /// The contact was removed.
    WithDraw,
}

/// What the runtime is asked to do.
#[derive(Debug)]
pub enum HCUAction {
    /// Send an UpdateRouteReq about the contact to the `radius` overlay neighbors closest to
    /// this node.
    SendUpdate(Contact, RouteUpdateActionType),
    /// Remove the node from the underlay-neighbor table.
    RemoveUnderlayNeighbor(NodeId),
}

/// The action sends an update of the kind about a copy of the contact.
pub open spec fn sends_update(a: HCUAction, c: Contact, kind: RouteUpdateActionType) -> bool {
    a matches HCUAction::SendUpdate(d, k) && d.id == c.id && d.state == c.state && d.path_view() == c.path_view()
        && k == kind
}

/// The path starts with the prefix.
pub open spec fn starts_with(path: Seq<NodeId>, prefix: Seq<NodeId>) -> bool {
    path.len() >= prefix.len() && path.take(prefix.len() as int) == prefix
}

/// The contact's path runs over the underlay neighbor `lost` (through its one-hop path).
pub open spec fn runs_over(c: Contact, lost: Contact) -> bool {
    lost.spec_is_uln() && c.path is Some && starts_with(c.path->0@, lost.path->0@)
}

/// The contacts after the loss of `lost`: those running over it are invalid, the others
/// unchanged.
pub open spec fn invalidated_over(before: Seq<Contact>, after: Seq<Contact>, lost: Contact) -> bool {
    &&& after.len() == before.len()
    &&& forall|i: int| 0 <= i < before.len() ==> {
        &&& (#[trigger] after[i]).id == before[i].id
        &&& after[i].path == before[i].path
        &&& after[i].state == if runs_over(before[i], lost) {
            ContactState::Invalid
        } else {
            before[i].state
        }
    }
}

/// Handles changes of the routing table: announces new contacts, changed contacts (as
/// unreachable if they are no longer valid) and removed underlay neighbors to the overlay
/// neighbors, and invalidates the contacts whose paths run over an underlay neighbor that
/// was removed or became invalid.
#[derive(Debug)]
pub struct HandleContactUpdate {
    config: HandleContactUpdateConfig,
}

impl HandleContactUpdate {
    /// The configuration.
    pub closed spec fn config_view(&self) -> HandleContactUpdateConfig {
        self.config
    }

    /// Creates the handler.
    pub fn new(config: HandleContactUpdateConfig) -> (h: Self)
        ensures
            h.config_view() == config,
    {
        HandleContactUpdate { config }
    }

    /// Handles a change of the routing table; `contacts` are the contacts of the routing
    /// table, updated in place.
    ///
    /// - A new contact is announced.
    /// - A changed contact is announced as changed if it is valid and as unreachable
    ///   otherwise; if it was valid and no longer is, the contacts running over it are
    ///   invalidated.
    /// - A removed underlay neighbor is withdrawn; the contacts running over it are
    ///   invalidated; the removed contact leaves the underlay-neighbor table.
    pub fn handle_contact_event(&self, event: ContactEvent, contacts: &mut Vec<Contact>) -> (actions: Vec<HCUAction>)
        ensures
            match event {
                ContactEvent::New(c) => actions@.len() == 1 && sends_update(actions@[0], c, RouteUpdateActionType::Announce)
                    && final(contacts)@ == old(contacts)@,
                ContactEvent::Removed(c) => {
                    &&& invalidated_over(old(contacts)@, final(contacts)@, c)
                    &&& if c.spec_is_uln() {
                        actions@.len() == 2 && sends_update(actions@[0], c, RouteUpdateActionType::WithDraw)
                            && actions@[1] == HCUAction::RemoveUnderlayNeighbor(c.id)
                    } else {
                        actions@ == seq![HCUAction::RemoveUnderlayNeighbor(c.id)]
                    }
                },
                ContactEvent::Updated { new: n, old: o } => {
                    &&& actions@.len() == 1
                    &&& sends_update(
                        actions@[0],
                        n,
                        if n.state == ContactState::Valid {
                            RouteUpdateActionType::Change
                        } else {
                            RouteUpdateActionType::Unreachable
                        },
                    )
                    &&& if o.state == ContactState::Valid && n.state != ContactState::Valid {
                        invalidated_over(old(contacts)@, final(contacts)@, n)
                    } else {
                        final(contacts)@ == old(contacts)@
                    }
                },
                _ => actions@.len() == 0 && final(contacts)@ == old(contacts)@,
            },
    {
        let mut actions: Vec<HCUAction> = Vec::new();
        match event {
            ContactEvent::Removed(contact) => {
                if contact.is_uln() {
                    actions.push(HCUAction::SendUpdate(copy_contact(&contact), RouteUpdateActionType::WithDraw));
                }
                invalidate_all_affected_contacts(contacts, &contact);
                actions.push(HCUAction::RemoveUnderlayNeighbor(contact.id));
            },
            ContactEvent::Updated { new, old } => {
                let kind = if new.state == ContactState::Valid {
                    RouteUpdateActionType::Change
                } else {
                    RouteUpdateActionType::Unreachable
                };
                actions.push(HCUAction::SendUpdate(copy_contact(&new), kind));
                if old.is_valid() && !new.is_valid() {
                    invalidate_all_affected_contacts(contacts, &new);
                }
            },
            ContactEvent::New(contact) => {
                actions.push(HCUAction::SendUpdate(contact, RouteUpdateActionType::Announce));
            },
            _ => {},
        }
        actions
    }
}

/// Whether the path starts with the prefix.
fn path_starts_with(path: &Vec<NodeId>, prefix: &Vec<NodeId>) -> (b: bool)
    ensures
        b == starts_with(path@, prefix@),
{
    if path.len() < prefix.len() {
        return false;
    }
    let mut i: usize = 0;
    while i < prefix.len()
        invariant
            i <= prefix.len() <= path.len(),
            forall|j: int| 0 <= j < i ==> path@[j] == prefix@[j],
        decreases prefix.len() - i,
    {
        if path[i] != prefix[i] {
            return false;
        }
        i = i + 1;
    }
    assert(path@.take(prefix@.len() as int) =~= prefix@);
    true
}

/// Invalidates the contacts whose paths run over the underlay neighbor `lost`; nothing
/// happens if `lost` is no underlay neighbor.
fn invalidate_all_affected_contacts(contacts: &mut Vec<Contact>, lost: &Contact)
    ensures
        invalidated_over(old(contacts)@, final(contacts)@, *lost),
{
    if !lost.is_uln() {
        return;
    }
    let prefix = match &lost.path {
        Some(p) => p,
        None => return,
    };
    let mut i: usize = 0;
    while i < contacts.len()
        invariant
            i <= contacts@.len(),
            lost.spec_is_uln(),
            lost.path == Some(*prefix),
            contacts@.len() == old(contacts)@.len(),
            forall|j: int| i <= j < contacts@.len() ==> #[trigger] contacts@[j] == old(contacts)@[j],
            forall|j: int| 0 <= j < i ==> {
                &&& (#[trigger] contacts@[j]).id == old(contacts)@[j].id
                &&& contacts@[j].path == old(contacts)@[j].path
                &&& contacts@[j].state == if runs_over(old(contacts)@[j], *lost) {
                    ContactState::Invalid
                } else {
                    old(contacts)@[j].state
                }
            },
        decreases contacts@.len() - i,
    {
        let over = match &contacts[i].path {
            Some(p) => path_starts_with(p, prefix),
            None => false,
        };
        if over {
            contacts[i].state = ContactState::Invalid;
        }
        i = i + 1;
    }
}

} // verus!
