//! The failures that stop a whole call.

use vstd::prelude::*;

verus! {

/// Why a call was refused as a whole.
///
/// A call that returns one of these has changed nothing and emitted nothing.
/// Failures of single items are no `EngineError`: they are recorded in the
/// batch result under a numeric code.
#[derive(Clone, Copy, Debug, PartialEq, Eq, Structural)]
pub enum EngineError {
    /// `initialize` was called on an engine that already has an admin.
    AlreadyInitialized,
    /// The caller is not the admin, or the host has not proven that it is.
    Unauthorized,
    /// The batch holds no request.
    EmptyBatch,
    /// A counter, an identifier or a volume would leave the range of its
    /// type.
    Overflow,
}

impl EngineError {
    /// A fixed English sentence for the error.
    pub fn message(&self) -> (text: &'static str)
        ensures
            text@ == Self::message_of(*self)@,
    {
        match self {
            EngineError::AlreadyInitialized => "Contract already initialized",
            EngineError::Unauthorized => "Unauthorized",
            EngineError::EmptyBatch => "Empty batch",
            EngineError::Overflow => "Arithmetic overflow",
        }
    }

    /// The sentence that `message` returns.
    pub open spec fn message_of(e: EngineError) -> &'static str {
        match e {
            EngineError::AlreadyInitialized => "Contract already initialized",
            EngineError::Unauthorized => "Unauthorized",
            EngineError::EmptyBatch => "Empty batch",
            EngineError::Overflow => "Arithmetic overflow",
        }
    }
}

} // verus!
