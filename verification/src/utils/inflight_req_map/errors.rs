//! Errors of [InflightReqMap](super::InflightReqMap).

use vstd::prelude::*;

verus! {

/// Why a request could not be tracked.
#[derive(Debug, Clone, Copy, PartialEq, Eq, Structural)]
pub enum InsertionError {
    /// Only a single timer is allowed for a message.
    DuplicateTimer,
    /// The nonce is already tracked.
    DuplicateNonce,
}

/// Why the timer of a tracked request could not be replaced.
#[derive(Debug, Clone, Copy, PartialEq, Eq, Structural)]
pub enum ModificationError {
    /// The new timer is already in use.
    DuplicateTimerError,
    /// The nonce is already in use.
    DuplicateNonceError,
    /// The nonce is not tracked.
    NonceDoesNotExistError,
}

/// Why a nonce could not be added to a node.
#[derive(Debug, Clone, Copy, PartialEq, Eq, Structural)]
pub enum AddNonceError {
    /// The node is not tracked.
    UnknownNode,
    /// The nonce is already tracked.
    DuplicateNonce,
}

impl InsertionError {
    /// Human-readable description of the error.
    pub fn message(&self) -> (m: &'static str)
        ensures
            m@ == (match *self {
                InsertionError::DuplicateTimer => "Duplicate Timer: Only a single timer is allowed for a message"@,
                InsertionError::DuplicateNonce => "Duplicate Nonce: Tried to insert an already existing nonce"@,
            }),
    {
        match self {
            InsertionError::DuplicateTimer => "Duplicate Timer: Only a single timer is allowed for a message",
            InsertionError::DuplicateNonce => "Duplicate Nonce: Tried to insert an already existing nonce",
        }
    }
}

impl ModificationError {
    /// Human-readable description of the error.
    pub fn message(&self) -> (m: &'static str)
        ensures
            m@ == (match *self {
                ModificationError::DuplicateTimerError => "Duplicate Timer: Timer exists already"@,
                ModificationError::DuplicateNonceError => "Duplicate Nonce: Nonce exists already"@,
                ModificationError::NonceDoesNotExistError => "Unknown Nonce: cannot find this nonce"@,
            }),
    {
        match self {
            ModificationError::DuplicateTimerError => "Duplicate Timer: Timer exists already",
            ModificationError::DuplicateNonceError => "Duplicate Nonce: Nonce exists already",
            ModificationError::NonceDoesNotExistError => "Unknown Nonce: cannot find this nonce",
        }
    }
}

impl AddNonceError {
    /// Human-readable description of the error.
    pub fn message(&self) -> (m: &'static str)
        ensures
            m@ == (match *self {
                AddNonceError::UnknownNode => "Unknown node: tried to add nonce to unknown node"@,
                AddNonceError::DuplicateNonce => "Duplicate Nonce: Tried to insert an already existing nonce"@,
            }),
    {
        match self {
            AddNonceError::UnknownNode => "Unknown node: tried to add nonce to unknown node",
            AddNonceError::DuplicateNonce => "Duplicate Nonce: Tried to insert an already existing nonce",
        }
    }
}

} // verus!
