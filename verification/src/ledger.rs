//! The asset ledger, as the transfer engine sees it.
//!
//! The ledger holds the balances and is not part of this library. The engine
//! hands it one `LedgerCall` at a time and reads the `LedgerReply`.

use vstd::prelude::*;
use crate::identity::Identity;

verus! {

/// An operation that the engine asks the asset ledger to attempt.
#[derive(Clone, Copy, Debug, PartialEq, Eq, Structural)]
pub enum LedgerCall {
    /// Move `amount` of `asset` from `from` to `to`.
    Transfer { asset: Identity, from: Identity, to: Identity, amount: i128 },
    /// Remove `amount` of `asset` from the balance of `from`.
    Burn { asset: Identity, from: Identity, amount: i128 },
}

impl LedgerCall {
    /// The amount that the call moves or removes.
    pub open spec fn amount(self) -> i128 {
        match self {
            LedgerCall::Transfer { amount, .. } => amount,
            LedgerCall::Burn { amount, .. } => amount,
        }
    }
}

/// What the ledger did with a call.
#[derive(Clone, Copy, Debug, PartialEq, Eq, Structural)]
pub enum LedgerReply {
    /// The balances were changed as asked.
    Accepted,
    /// The ledger refused and changed nothing: the balance was too small, the
    /// account is frozen, or it does not hold the asset.
    Rejected,
}

} // verus!
