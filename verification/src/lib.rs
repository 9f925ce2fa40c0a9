//! Batch engines for a replicated ledger host.
//!
//! Two engines share one shape. The transfer engine moves or burns an asset
//! for a list of requests; the wallet engine creates wallets and re-keys them
//! to new owners. Each call takes an ordered batch, settles every item on its
//! own, and folds the batch totals into the engine's counters once, after the
//! last item. A bad item is recorded as a failure and never stops its
//! siblings; an unauthorised caller or an empty batch stops the whole call and
//! leaves the engine as it was.

pub mod identity;
pub mod error;
pub mod access;
pub mod outcome;
pub mod ledger;
pub mod transfer;
pub mod burn;
pub mod transfer_engine;
pub mod sequence;
pub mod wallet_store;
pub mod wallet;
pub mod wallet_registry;
pub mod wallet_engine;
pub mod history;
