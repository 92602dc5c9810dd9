//! The errors that the bridge between host and guest reports.

use vstd::prelude::*;

verus! {

/// `anyhow::Error`: the error with which the engine fails a call. It is
/// carried through as it is.
#[verifier::external_type_specification]
#[verifier::external_body]
pub struct ExEngineError(anyhow::Error);

/// Why a manifest is refused.
#[derive(Clone, Copy, Debug, PartialEq, Eq, Structural)]
pub enum ValidationError {
    /// The description has a field that no manifest has, lacks one that
    /// it needs, names one twice, or gives one a value of the wrong kind.
    Malformed,
}

impl ValidationError {
    /// A short description of the error.
    pub fn message(&self) -> (m: String)
        ensures
            m@ == "malformed manifest"@,
    {
        "malformed manifest".to_owned()
    }
}

/// A failure detected by the host while it talks to a guest.
#[derive(Debug)]
pub enum BridgeError {
    /// The guest lacks one of the exports that the bridge needs, or exports
    /// it with another shape.
    MissingAbiExport,
    /// A growth request went over the budget, or the guest's allocator
    /// returned no block.
    OutOfMemory,
    /// A handle does not lie inside the guest's linear memory.
    InvalidMemoryAccess,
    /// Bytes are not valid UTF-8, or do not decode to the value asked for.
    Decode,
    /// The engine stopped a call into the guest, for instance on a trap.
    CallFailed(anyhow::Error),
}

impl BridgeError {
    /// The text that describes the error kind.
    pub open spec fn text(&self) -> Seq<char> {
        match self {
            BridgeError::MissingAbiExport => "missing guest export"@,
            BridgeError::OutOfMemory => "out of memory"@,
            BridgeError::InvalidMemoryAccess => "invalid memory access"@,
            BridgeError::Decode => "invalid encoding"@,
            BridgeError::CallFailed(_) => "guest call failed"@,
        }
    }

    /// A short description of the error kind.
    pub fn message(&self) -> (m: String)
        ensures
            m@ == self.text(),
    {
        match self {
            BridgeError::MissingAbiExport => "missing guest export".to_owned(),
            BridgeError::OutOfMemory => "out of memory".to_owned(),
            BridgeError::InvalidMemoryAccess => "invalid memory access".to_owned(),
            BridgeError::Decode => "invalid encoding".to_owned(),
            BridgeError::CallFailed(_) => "guest call failed".to_owned(),
        }
    }
}

} // verus!
