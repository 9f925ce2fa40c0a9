//! Principals, and the claim a call makes about who sent it.

use vstd::prelude::*;

verus! {

/// A principal of the ledger.
///
/// The engines never look inside an identity: they compare two of them and
/// use them as keys. `key` is the number under which the host knows the
/// principal; two identities are the same principal exactly when their keys
/// are equal.
#[derive(Clone, Copy, Debug, PartialEq, Eq, Structural, Hash)]
pub struct Identity {
    pub key: u64,
}

impl Identity {
    /// The principal known under `key`.
    pub fn new(key: u64) -> (id: Identity)
        ensures
            id.key == key,
    {
        Identity { key }
    }

    /// Whether `self` and `other` are the same principal.
    pub fn same_as(&self, other: &Identity) -> (same: bool)
        ensures
            same == (*self == *other),
    {
        self.key == other.key
    }
}

/// The sender of a call, as the host presents it.
///
/// `identity` is who the sender says it is. `proven` is the host's answer to
/// the question whether the call's signers establish that claim.
#[derive(Clone, Copy, Debug, PartialEq, Eq, Structural)]
pub struct Caller {
    pub identity: Identity,
    pub proven: bool,
}

impl Caller {
    /// A sender whose claim to be `identity` the host has verified.
    pub fn proven(identity: Identity) -> (caller: Caller)
        ensures
            caller == (Caller { identity, proven: true }),
    {
        Caller { identity, proven: true }
    }

    /// A sender that claims to be `identity` without proof.
    pub fn unproven(identity: Identity) -> (caller: Caller)
        ensures
            caller == (Caller { identity, proven: false }),
    {
        Caller { identity, proven: false }
    }
}

} // verus!
