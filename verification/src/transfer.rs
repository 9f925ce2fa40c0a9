//! Requests and outcomes of the transfer engine, and the handler that
//! settles one transfer.

use vstd::prelude::*;
use crate::identity::Identity;
use crate::ledger::{LedgerCall, LedgerReply};
use crate::outcome::{failures, successes, volume, Outcome};

verus! {

/// Failure code: the requested amount is zero or negative.
pub const INVALID_AMOUNT: u32 = 1;

/// Failure code: the ledger refused the operation.
pub const LEDGER_REJECTED: u32 = 2;

/// A request to move `amount` of the batch's asset to `recipient`.
#[derive(Clone, Copy, Debug, PartialEq, Eq, Structural)]
pub struct TransferRequest {
    pub recipient: Identity,
    pub amount: i128,
}

/// The outcome of one transfer request.
#[derive(Clone, Copy, Debug, PartialEq, Eq, Structural)]
pub enum TransferResult {
    /// The ledger moved the amount to the recipient.
    Success(Identity, i128),
    /// Nothing was moved. The fields are the recipient, the requested amount
    /// and the failure code.
    Failure(Identity, i128, u32),
}

impl Outcome for TransferResult {
    open spec fn succeeded(self) -> bool {
        self is Success
    }

    open spec fn effected(self) -> int {
        match self {
            TransferResult::Success(_, amount) => amount as int,
            TransferResult::Failure(_, _, _) => 0,
        }
    }

    fn is_success(&self) -> (yes: bool) {
        match self {
            TransferResult::Success(_, _) => true,
            TransferResult::Failure(_, _, _) => false,
        }
    }

    fn amount_effected(&self) -> (amount: i128) {
        match self {
            TransferResult::Success(_, amount) => *amount,
            TransferResult::Failure(_, _, _) => 0,
        }
    }
}

/// The sum of the positive amounts in `requests`: the most that a batch of
/// these requests can move.
pub open spec fn transfer_demand(requests: Seq<TransferRequest>) -> int
    decreases requests.len(),
{
    if requests.len() == 0 {
        0
    } else {
        transfer_demand(requests.drop_last()) + if requests.last().amount > 0 {
            requests.last().amount as int
        } else {
            0
        }
    }
}

/// What a call of `batch_transfer` returns.
#[derive(Debug, PartialEq, Eq)]
pub struct BatchTransferResult {
    /// The number of requests in the batch.
    pub total_requests: u64,
    /// The number of requests that succeeded.
    pub successful: u64,
    /// The number of requests that failed.
    pub failed: u64,
    /// The sum of the amounts of the successful requests.
    pub total_transferred: i128,
    /// One outcome for each request, in request order.
    pub results: Vec<TransferResult>,
}

impl BatchTransferResult {
    /// The totals are those of `results`: every request has one outcome, a
    /// success or a failure.
    pub open spec fn wf(&self) -> bool {
        &&& self.total_requests == self.results@.len()
        &&& self.total_requests == self.successful + self.failed
        &&& self.successful == successes(self.results@)
        &&& self.failed == failures(self.results@)
        &&& self.total_transferred == volume(self.results@)
    }
}

impl TransferRequest {
    /// The ledger call that carries out the request for `asset`, paid by
    /// `source`.
    pub open spec fn call(self, asset: Identity, source: Identity) -> LedgerCall {
        LedgerCall::Transfer { asset, from: source, to: self.recipient, amount: self.amount }
    }

    /// The outcome of a request with a positive amount to which the ledger
    /// gave `reply`.
    pub open spec fn settled(self, reply: LedgerReply) -> TransferResult {
        match reply {
            LedgerReply::Accepted => TransferResult::Success(self.recipient, self.amount),
            LedgerReply::Rejected => TransferResult::Failure(
                self.recipient,
                self.amount,
                LEDGER_REJECTED,
            ),
        }
    }

    /// The outcome of a request that is refused before the ledger is asked.
    pub open spec fn refused(self) -> TransferResult {
        TransferResult::Failure(self.recipient, self.amount, INVALID_AMOUNT)
    }

    /// Whether `outcome` is an outcome of the request when `ledger` answers
    /// for the asset ledger: the refusal for an amount that is not positive,
    /// else what follows from some reply that `ledger` can give to the
    /// request's call.
    pub open spec fn settles<L: Fn(LedgerCall) -> LedgerReply>(
        self,
        ledger: L,
        asset: Identity,
        source: Identity,
        outcome: TransferResult,
    ) -> bool {
        if self.amount <= 0 {
            outcome == self.refused()
        } else {
            exists|reply: LedgerReply|
                call_ensures(ledger, (self.call(asset, source),), reply)
                    && outcome == #[trigger] self.settled(reply)
        }
    }

    /// Classifies a request with a positive amount by the ledger's reply.
    pub fn settle(&self, reply: LedgerReply) -> (outcome: TransferResult)
        ensures
            outcome == self.settled(reply),
    {
        match reply {
            LedgerReply::Accepted => TransferResult::Success(self.recipient, self.amount),
            LedgerReply::Rejected => TransferResult::Failure(
                self.recipient,
                self.amount,
                LEDGER_REJECTED,
            ),
        }
    }

    /// Handles one transfer.
    ///
    /// An amount that is not positive fails with `INVALID_AMOUNT` and the
    /// ledger is not asked. Otherwise the ledger is asked once to move the
    /// amount from `source` to the recipient, and its reply decides between
    /// `Success` and a failure with `LEDGER_REJECTED`.
    pub fn handle<L: Fn(LedgerCall) -> LedgerReply>(
        &self,
        asset: Identity,
        source: Identity,
        ledger: &L,
    ) -> (outcome: TransferResult)
        requires
            self.amount > 0 ==> call_requires(*ledger, (self.call(asset, source),)),
        ensures
            self.settles(*ledger, asset, source, outcome),
    {
        if self.amount <= 0 {
            TransferResult::Failure(self.recipient, self.amount, INVALID_AMOUNT)
        } else {
            let reply = ledger(
                LedgerCall::Transfer {
                    asset,
                    from: source,
                    to: self.recipient,
                    amount: self.amount,
                },
            );
            self.settle(reply)
        }
    }
}

/// Whether `outcome` moves no more than `request` asks for: nothing, or the
/// requested amount where that is positive.
pub open spec fn transfer_within(request: TransferRequest, outcome: TransferResult) -> bool {
    outcome.effected() == 0 || (request.amount > 0 && outcome.effected() == request.amount)
}

/// Outcomes that each stay within their request move together no more than
/// the requests' demand, and never a negative amount.
pub proof fn lemma_transfer_volume_bounded(
    requests: Seq<TransferRequest>,
    results: Seq<TransferResult>,
)
    requires
        results.len() <= requests.len(),
        forall|i: int|
            0 <= i < results.len() ==> transfer_within(#[trigger] requests[i], results[i]),
    ensures
        0 <= volume(results) <= transfer_demand(requests),
    decreases requests.len(),
{
    if requests.len() > 0 {
        if results.len() == requests.len() {
            assert(transfer_within(requests[requests.len() - 1], results.last()));
            lemma_transfer_volume_bounded(requests.drop_last(), results.drop_last());
        } else {
            lemma_transfer_volume_bounded(requests.drop_last(), results);
        }
    }
}

/// A request whose amount is not positive fails with `INVALID_AMOUNT`
/// whatever the ledger would say and wherever the request stands in its
/// batch, and it moves nothing.
pub proof fn lemma_transfer_invalid_amount<L: Fn(LedgerCall) -> LedgerReply>(
    request: TransferRequest,
    ledger: L,
    asset: Identity,
    source: Identity,
    outcome: TransferResult,
)
    requires
        request.amount <= 0,
        request.settles(ledger, asset, source, outcome),
    ensures
        outcome == TransferResult::Failure(request.recipient, request.amount, INVALID_AMOUNT),
        !outcome.succeeded(),
        outcome.effected() == 0,
{
}

/// A request whose amount is positive succeeds with that amount or fails
/// with `LEDGER_REJECTED`: the ledger's reply decides, and no other outcome
/// is possible.
pub proof fn lemma_transfer_valid_amount<L: Fn(LedgerCall) -> LedgerReply>(
    request: TransferRequest,
    ledger: L,
    asset: Identity,
    source: Identity,
    outcome: TransferResult,
)
    requires
        request.amount > 0,
        request.settles(ledger, asset, source, outcome),
    ensures
        outcome == TransferResult::Success(request.recipient, request.amount) || outcome
            == TransferResult::Failure(request.recipient, request.amount, LEDGER_REJECTED),
        transfer_within(request, outcome),
{
}

/// The outcomes of the first requests of a batch move together no more than
/// the whole batch demands, and never a negative amount, whatever the ledger
/// replied.
pub proof fn lemma_transfer_settled_bounded<L: Fn(LedgerCall) -> LedgerReply>(
    requests: Seq<TransferRequest>,
    results: Seq<TransferResult>,
    ledger: L,
    asset: Identity,
    source: Identity,
)
    requires
        results.len() <= requests.len(),
        forall|i: int|
            0 <= i < results.len() ==> (#[trigger] requests[i]).settles(
                ledger,
                asset,
                source,
                results[i],
            ),
    ensures
        0 <= volume(results) <= transfer_demand(requests),
{
    assert forall|i: int| 0 <= i < results.len() implies transfer_within(
        #[trigger] requests[i],
        results[i],
    ) by {
        assert(requests[i].settles(ledger, asset, source, results[i]));
    }
    lemma_transfer_volume_bounded(requests, results);
}

} // verus!
