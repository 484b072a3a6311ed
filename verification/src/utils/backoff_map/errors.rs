//! Errors of [BackoffMap](super::BackoffMap).

use vstd::prelude::*;

verus! {

/// Why a contact could not be tracked.
#[derive(Debug, Clone, Copy, PartialEq, Eq, Structural)]
pub enum InsertionError {
    /// The timer is already in use.
    DuplicateTimer,
    /// The nonce is already tracked.
    DuplicateNonce,
}

/// The timer is already in use.
#[derive(Debug, Clone, Copy, PartialEq, Eq, Structural)]
pub struct DuplicateTimerError;

/// Why a nonce could not be added to a node.
#[derive(Debug, Clone, Copy, PartialEq, Eq, Structural)]
pub enum AddNonceError {
    /// The node is not tracked.
    UnknownNode,
    /// The nonce is already tracked.
    DuplicateNonce,
}

impl InsertionError {
    /// Human-readable description of the error.
    pub fn message(&self) -> (m: &'static str)
        ensures
            m@ == (match *self {
                InsertionError::DuplicateTimer => "Duplicate Timer: Only a single backoff timer is allowed for a node"@,
                InsertionError::DuplicateNonce => "Duplicate Nonce: Tried to insert an already existing nonce"@,
            }),
    {
        match self {
            InsertionError::DuplicateTimer => "Duplicate Timer: Only a single backoff timer is allowed for a node",
            InsertionError::DuplicateNonce => "Duplicate Nonce: Tried to insert an already existing nonce",
        }
    }
}

impl DuplicateTimerError {
    /// Human-readable description of the error.
    pub fn message(&self) -> (m: &'static str)
        ensures
            m@ == "Duplicate Timer: Only a single backoff timer is allowed for a node"@,
    {
        "Duplicate Timer: Only a single backoff timer is allowed for a node"
    }
}

impl AddNonceError {
    /// Human-readable description of the error.
    pub fn message(&self) -> (m: &'static str)
        ensures
            m@ == (match *self {
                AddNonceError::UnknownNode => "Unknown node: tried to add nonce to unknown node"@,
                AddNonceError::DuplicateNonce => "Duplicate Nonce: Tried to insert an already existing nonce"@,
            }),
    {
        match self {
            AddNonceError::UnknownNode => "Unknown node: tried to add nonce to unknown node",
            AddNonceError::DuplicateNonce => "Duplicate Nonce: Tried to insert an already existing nonce",
        }
    }
}

} // verus!
