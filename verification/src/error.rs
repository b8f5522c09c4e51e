//! The error taxonomy of the bridge.
//!
//! Every conversion failure is a hard stop for that call: no retry is
//! attempted anywhere, and the error names what went wrong.

use vstd::prelude::*;

verus! {

/// A typed conversion failure.
#[derive(Clone, Copy, Debug, PartialEq, Eq, Structural)]
pub enum BridgeError {
    /// The host value's variant could not be determined from its tags.
    UnrecognizedCapability,
    /// The variant was determined, but is not one the requested conversion accepts.
    WrongCapability,
    /// A legitimate Arrow type this bridge does not implement.
    UnsupportedType,
    /// A legitimate Arrow encoding (dictionary) this bridge does not implement.
    UnsupportedEncoding,
    /// The received schema-descriptor struct is internally inconsistent.
    MalformedSchema,
    /// The received array-descriptor's buffers disagree with what its schema implies.
    BufferLayoutMismatch,
    /// A required host-side helper is absent.
    ExternalCapabilityMissing,
}

impl BridgeError {
    /// A short diagnostic text for the failure.
    pub fn describe(&self) -> (r: &'static str)
        ensures
            r@.len() > 0,
    {
        proof {
            reveal_strlit("value's variant is not recognized by any conversion");
            reveal_strlit("value's variant is not the one this conversion requires");
            reveal_strlit("native type has no C-ABI format mapping in this bridge");
            reveal_strlit("dictionary encoding is not supported by this bridge");
            reveal_strlit("schema descriptor could not be parsed");
            reveal_strlit("array buffers disagree with the schema's layout");
            reveal_strlit("a required host-side helper is not available");
        }
        match self {
            BridgeError::UnrecognizedCapability => "value's variant is not recognized by any conversion",
            BridgeError::WrongCapability => "value's variant is not the one this conversion requires",
            BridgeError::UnsupportedType => "native type has no C-ABI format mapping in this bridge",
            BridgeError::UnsupportedEncoding => "dictionary encoding is not supported by this bridge",
            BridgeError::MalformedSchema => "schema descriptor could not be parsed",
            BridgeError::BufferLayoutMismatch => "array buffers disagree with the schema's layout",
            BridgeError::ExternalCapabilityMissing => "a required host-side helper is not available",
        }
    }
}

} // verus!
