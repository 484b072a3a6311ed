//! Serialization formats of the protocol messages.

use vstd::prelude::*;

verus! {

/// Format in which protocol messages are serialized on the wire.
#[derive(Debug, Clone, Copy, PartialEq, Eq, Structural)]
pub enum ProtocolMessageFormat {
    /// Binary layout.
    Binrw,
    /// JavaScript object notation.
    Json,
    /// Concise Binary Object Representation.
    CBOR,
    /// MessagePack.
    MessagePack,
    /// No format selected: nothing can be serialized.
    Unselected,
}

impl Default for ProtocolMessageFormat {
    fn default() -> (f: Self)
        ensures
            f == ProtocolMessageFormat::Unselected,
    {
        ProtocolMessageFormat::Unselected
    }
}

/// Serialization format of the protocol messages of R²/KAD; all nodes must use the same.
#[derive(Debug, Clone, Copy, PartialEq, Eq, Structural)]
pub enum R2KadMessageFormat {
    Binrw,
    Json,
    CBOR,
    MP,
}

impl Default for R2KadMessageFormat {
    fn default() -> (f: Self)
        ensures
            f == R2KadMessageFormat::Binrw,
    {
        R2KadMessageFormat::Binrw
    }
}

/// The message format that the R²/KAD format selects.
pub open spec fn format_of(f: R2KadMessageFormat) -> ProtocolMessageFormat {
    match f {
        R2KadMessageFormat::Binrw => ProtocolMessageFormat::Binrw,
        R2KadMessageFormat::Json => ProtocolMessageFormat::Json,
        R2KadMessageFormat::CBOR => ProtocolMessageFormat::CBOR,
        R2KadMessageFormat::MP => ProtocolMessageFormat::MessagePack,
    }
}

impl From<R2KadMessageFormat> for ProtocolMessageFormat {
    fn from(f: R2KadMessageFormat) -> (p: Self) {
        match f {
            R2KadMessageFormat::Binrw => ProtocolMessageFormat::Binrw,
            R2KadMessageFormat::Json => ProtocolMessageFormat::Json,
            R2KadMessageFormat::CBOR => ProtocolMessageFormat::CBOR,
            R2KadMessageFormat::MP => ProtocolMessageFormat::MessagePack,
        }
    }
}

impl vstd::std_specs::convert::FromSpecImpl<R2KadMessageFormat> for ProtocolMessageFormat {
    open spec fn obeys_from_spec() -> bool {
        true
    }

    open spec fn from_spec(f: R2KadMessageFormat) -> Self {
        format_of(f)
    }
}

/// A running instance of the protocol.
pub trait ProtocolInstance {
}

} // verus!
