//! The use cases of the protocol, each a state machine: it takes events and the parts of
//! the node's context that it reads, and returns its next state and the actions for the
//! runtime (messages to send, forwarding-table changes, timers to register).

use vstd::prelude::*;

use crate::domain::Contact;

pub mod derive_fwd_table_entries;
pub mod distributed_hash_table;
pub mod distributed_hash_table_injector;
pub mod explicit_path_management;
pub mod failure_handling;
pub mod forward_protocol_message;
pub mod handle_contact_update;
pub mod handle_overlay_discovery;
pub mod inject_messages;
pub mod overlay_neighborhood_discovery;
pub mod path_probing;
pub mod precompute_paths_and_path_ids;
pub mod vicinity_discovery;

verus! {

/// A change of the routing table.
#[derive(Debug)]
pub enum ContactEvent {
    /// A contact was added.
    New(Contact),
    /// A contact was removed.
    Removed(Contact),
    /// A contact changed (possibly to another destination).
    Updated { new: Contact, old: Contact },
    /// The bucket with the index changed.
    BucketUpdated(usize),
    /// The bucket with the index was created.
    NewBucket(usize),
}

/// State of a use case that only reacts to events.
#[derive(Debug, Clone, Copy, PartialEq, Eq, Structural)]
pub enum ReactiveUseCaseState {
    Idle,
    Error,
}

impl Default for ReactiveUseCaseState {
    fn default() -> (s: Self)
        ensures
            s == ReactiveUseCaseState::Idle,
    {
        ReactiveUseCaseState::Idle
    }
}

impl ReactiveUseCaseState {
    /// Whether the use case failed.
    pub fn is_error(&self) -> (b: bool)
        ensures
            b == (*self == ReactiveUseCaseState::Error),
    {
        match self {
            ReactiveUseCaseState::Error => true,
            ReactiveUseCaseState::Idle => false,
        }
    }
}

/// Whether a use case consumed a message, so that it is not forwarded further.
#[derive(Debug, Clone, Copy, PartialEq, Eq, Structural)]
pub enum HandlingResult {
    Handled,
    NotHandled,
}

} // verus!
