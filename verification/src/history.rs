//! What holds of an engine over a whole run of batches: the counters are the
//! sums of what the batches added and never fall, and the registry stays
//! sound.

use vstd::prelude::*;
use crate::outcome::successes;
use crate::transfer_engine::{TransferEvent, TransferState};
use crate::wallet::{
    lemma_create_all_sound, lemma_recover_all_sound, WalletCreateRequest, WalletRecoveryRequest,
};
use crate::wallet_engine::WalletState;

verus! {

/// What one committed batch of the transfer engine added: the number of its
/// requests, the amount it moved or burned, and its events.
pub struct BatchTotals {
    pub requests: nat,
    pub moved: int,
    pub emitted: Seq<TransferEvent>,
}

/// The number of requests in `batches`.
pub open spec fn requests_in(batches: Seq<BatchTotals>) -> nat
    decreases batches.len(),
{
    if batches.len() == 0 {
        0
    } else {
        requests_in(batches.drop_last()) + batches.last().requests
    }
}

/// The amount that `batches` moved or burned.
pub open spec fn moved_in(batches: Seq<BatchTotals>) -> int
    decreases batches.len(),
{
    if batches.len() == 0 {
        0
    } else {
        moved_in(batches.drop_last()) + batches.last().moved
    }
}

/// The state of a transfer engine that started in `state` and committed
/// `batches`, oldest first.
pub open spec fn after_batches(state: TransferState, batches: Seq<BatchTotals>) -> TransferState
    decreases batches.len(),
{
    if batches.len() == 0 {
        state
    } else {
        after_batches(state, batches.drop_last()).after_batch(
            batches.last().requests,
            batches.last().moved,
            batches.last().emitted,
        )
    }
}

/// After any run of batches the counters of a transfer engine are what they
/// were before plus the exact sums over the batches: one for each batch, the
/// requests of each, and the amount that each moved.
pub proof fn lemma_transfer_counters_sum(state: TransferState, batches: Seq<BatchTotals>)
    ensures
        after_batches(state, batches).admin == state.admin,
        after_batches(state, batches).total_batches == state.total_batches + batches.len(),
        after_batches(state, batches).total_transfers_processed
            == state.total_transfers_processed + requests_in(batches),
        after_batches(state, batches).total_volume_transferred == state.total_volume_transferred
            + moved_in(batches),
    decreases batches.len(),
{
    if batches.len() > 0 {
        lemma_transfer_counters_sum(state, batches.drop_last());
    }
}

/// No counter of a transfer engine ever falls: after the first `k` batches of
/// a run each is at most what it is after the whole run, given that no batch
/// moves a negative amount.
pub proof fn lemma_transfer_counters_never_fall(
    state: TransferState,
    batches: Seq<BatchTotals>,
    k: int,
)
    requires
        0 <= k <= batches.len(),
        forall|i: int| 0 <= i < batches.len() ==> (#[trigger] batches[i]).moved >= 0,
    ensures
        after_batches(state, batches.take(k)).total_batches <= after_batches(
            state,
            batches,
        ).total_batches,
        after_batches(state, batches.take(k)).total_transfers_processed <= after_batches(
            state,
            batches,
        ).total_transfers_processed,
        after_batches(state, batches.take(k)).total_volume_transferred <= after_batches(
            state,
            batches,
        ).total_volume_transferred,
    decreases batches.len() - k,
{
    if k == batches.len() {
        assert(batches.take(k) =~= batches);
    } else {
        lemma_transfer_counters_never_fall(state, batches, k + 1);
        assert(batches.take(k + 1).drop_last() =~= batches.take(k));
        assert(batches.take(k + 1).last() == batches[k]);
    }
}

/// One batch of the wallet engine.
pub enum WalletBatch {
    /// A batch of creations.
    Create(Seq<WalletCreateRequest>),
    /// A batch of recoveries.
    Recover(Seq<WalletRecoveryRequest>),
}

/// The state of a wallet engine after it has committed `batch`.
pub open spec fn after_wallet_batch(state: WalletState, batch: WalletBatch) -> WalletState {
    match batch {
        WalletBatch::Create(requests) => state.after_create(requests),
        WalletBatch::Recover(requests) => state.after_recover(requests),
    }
}

/// The state of a wallet engine that started in `state` and committed
/// `batches`, oldest first.
pub open spec fn after_wallet_batches(state: WalletState, batches: Seq<WalletBatch>)
    -> WalletState
    decreases batches.len(),
{
    if batches.len() == 0 {
        state
    } else {
        after_wallet_batch(after_wallet_batches(state, batches.drop_last()), batches.last())
    }
}

/// The number of wallets that `batches` create in an engine that starts in
/// `state`: the successes of each creation batch, on the registry as the
/// batches before it have left it.
pub open spec fn created_in(state: WalletState, batches: Seq<WalletBatch>) -> nat
    decreases batches.len(),
{
    if batches.len() == 0 {
        0
    } else {
        created_in(state, batches.drop_last()) + match batches.last() {
            WalletBatch::Create(requests) => successes(
                after_wallet_batches(state, batches.drop_last()).registry.create_outcomes(
                    requests,
                ),
            ),
            WalletBatch::Recover(_) => 0nat,
        }
    }
}

/// After any run of batches the registry of a wallet engine is sound, so no
/// two wallets share an identifier, and its counters are what they were
/// before plus the exact sums over the batches: one for each batch, and the
/// successes of each creation batch. The last identifier has grown by the
/// same number as the counter of wallets: one identifier was issued for each
/// wallet created, and none for a recovery.
pub proof fn lemma_wallet_counters_sum(state: WalletState, batches: Seq<WalletBatch>)
    requires
        state.registry.wf(),
    ensures
        after_wallet_batches(state, batches).registry.wf(),
        after_wallet_batches(state, batches).admin == state.admin,
        after_wallet_batches(state, batches).total_batches == state.total_batches
            + batches.len(),
        after_wallet_batches(state, batches).total_wallets_created == state.total_wallets_created
            + created_in(state, batches),
        after_wallet_batches(state, batches).registry.last_id == state.registry.last_id
            + created_in(state, batches),
    decreases batches.len(),
{
    if batches.len() > 0 {
        lemma_wallet_counters_sum(state, batches.drop_last());
        let before = after_wallet_batches(state, batches.drop_last());
        match batches.last() {
            WalletBatch::Create(requests) => {
                lemma_create_all_sound(before.registry, requests);
            },
            WalletBatch::Recover(requests) => {
                lemma_recover_all_sound(before.registry, requests);
            },
        }
    }
}

/// No counter of a wallet engine ever falls, and no identifier is issued
/// twice: after the first `k` batches of a run the counters and the last
/// identifier are at most what they are after the whole run.
pub proof fn lemma_wallet_counters_never_fall(
    state: WalletState,
    batches: Seq<WalletBatch>,
    k: int,
)
    requires
        state.registry.wf(),
        0 <= k <= batches.len(),
    ensures
        after_wallet_batches(state, batches.take(k)).total_batches <= after_wallet_batches(
            state,
            batches,
        ).total_batches,
        after_wallet_batches(state, batches.take(k)).total_wallets_created
            <= after_wallet_batches(state, batches).total_wallets_created,
        after_wallet_batches(state, batches.take(k)).registry.last_id <= after_wallet_batches(
            state,
            batches,
        ).registry.last_id,
    decreases batches.len() - k,
{
    if k == batches.len() {
        assert(batches.take(k) =~= batches);
    } else {
        lemma_wallet_counters_never_fall(state, batches, k + 1);
        assert(batches.take(k + 1).drop_last() =~= batches.take(k));
        assert(batches.take(k + 1).last() == batches[k]);
        lemma_wallet_counters_sum(state, batches.take(k));
        let before = after_wallet_batches(state, batches.take(k));
        match batches[k] {
            WalletBatch::Create(requests) => {
                lemma_create_all_sound(before.registry, requests);
            },
            WalletBatch::Recover(requests) => {
                lemma_recover_all_sound(before.registry, requests);
            },
        }
    }
}

} // verus!
