//! Errors of message injection.

use vstd::prelude::*;

verus! {

/// Errors of message injection.
#[derive(Debug, Clone, Copy, PartialEq, Eq, Structural)]
pub enum InjectMessageError {
    /// The result could not be delivered to the injector.
    SendResultFailed,
    /// The node is isolated.
    Isolated,
}

impl InjectMessageError {
    /// A description of the error.
    pub fn message(&self) -> (m: String)
        ensures
            m@ == (match *self {
                InjectMessageError::SendResultFailed => "Sending injection result failed"@,
                InjectMessageError::Isolated => "Node is isolated"@,
            }),
    {
        match self {
            InjectMessageError::SendResultFailed => String::from_str("Sending injection result failed"),
            InjectMessageError::Isolated => String::from_str("Node is isolated"),
        }
    }
}

} // verus!
