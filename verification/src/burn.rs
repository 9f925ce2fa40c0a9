//! Requests and outcomes of the transfer engine for burning, and the
//! handler that settles one burn.

use vstd::prelude::*;
use crate::identity::Identity;
use crate::ledger::{LedgerCall, LedgerReply};
use crate::outcome::{failures, successes, volume, Outcome};
use crate::transfer::{INVALID_AMOUNT, LEDGER_REJECTED};

verus! {

/// A request to remove `amount` of the batch's asset from the balance of
/// `owner`.
#[derive(Clone, Copy, Debug, PartialEq, Eq, Structural)]
pub struct BurnRequest {
    pub owner: Identity,
    pub amount: i128,
}

/// The outcome of one burn request.
#[derive(Clone, Copy, Debug, PartialEq, Eq, Structural)]
pub enum BurnResult {
    /// The ledger removed the amount from the owner's balance.
    Success(Identity, i128),
    /// Nothing was removed. The fields are the owner, the requested amount
    /// and the failure code.
    Failure(Identity, i128, u32),
}

impl Outcome for BurnResult {
    open spec fn succeeded(self) -> bool {
        self is Success
    }

    open spec fn effected(self) -> int {
        match self {
            BurnResult::Success(_, amount) => amount as int,
            BurnResult::Failure(_, _, _) => 0,
        }
    }

    fn is_success(&self) -> (yes: bool) {
        match self {
            BurnResult::Success(_, _) => true,
            BurnResult::Failure(_, _, _) => false,
        }
    }

    fn amount_effected(&self) -> (amount: i128) {
        match self {
            BurnResult::Success(_, amount) => *amount,
            BurnResult::Failure(_, _, _) => 0,
        }
    }
}

/// The sum of the positive amounts in `requests`: the most that a batch of
/// these requests can remove.
pub open spec fn burn_demand(requests: Seq<BurnRequest>) -> int
    decreases requests.len(),
{
    if requests.len() == 0 {
        0
    } else {
        burn_demand(requests.drop_last()) + if requests.last().amount > 0 {
            requests.last().amount as int
        } else {
            0
        }
    }
}

/// What a call of `batch_burn` returns.
#[derive(Debug, PartialEq, Eq)]
pub struct BatchBurnResult {
    /// The number of requests in the batch.
    pub total_requests: u64,
    /// The number of requests that succeeded.
    pub successful: u64,
    /// The number of requests that failed.
    pub failed: u64,
    /// The sum of the amounts of the successful requests.
    pub total_burned: i128,
    /// One outcome for each request, in request order.
    pub results: Vec<BurnResult>,
}

impl BatchBurnResult {
    /// The totals are those of `results`: every request has one outcome, a
    /// success or a failure.
    pub open spec fn wf(&self) -> bool {
        &&& self.total_requests == self.results@.len()
        &&& self.total_requests == self.successful + self.failed
        &&& self.successful == successes(self.results@)
        &&& self.failed == failures(self.results@)
        &&& self.total_burned == volume(self.results@)
    }
}

impl BurnRequest {
    /// The ledger call that carries out the request for `asset`.
    pub open spec fn call(self, asset: Identity) -> LedgerCall {
        LedgerCall::Burn { asset, from: self.owner, amount: self.amount }
    }

    /// The outcome of a request with a positive amount to which the ledger
    /// gave `reply`.
    pub open spec fn settled(self, reply: LedgerReply) -> BurnResult {
        match reply {
            LedgerReply::Accepted => BurnResult::Success(self.owner, self.amount),
            LedgerReply::Rejected => BurnResult::Failure(
                self.owner,
                self.amount,
                LEDGER_REJECTED,
            ),
        }
    }

    /// The outcome of a request that is refused before the ledger is asked.
    pub open spec fn refused(self) -> BurnResult {
        BurnResult::Failure(self.owner, self.amount, INVALID_AMOUNT)
    }

    /// Whether `outcome` is an outcome of the request when `ledger` answers
    /// for the asset ledger: the refusal for an amount that is not positive,
    /// else what follows from some reply that `ledger` can give to the
    /// request's call.
    pub open spec fn settles<L: Fn(LedgerCall) -> LedgerReply>(
        self,
        ledger: L,
        asset: Identity,
        outcome: BurnResult,
    ) -> bool {
        if self.amount <= 0 {
            outcome == self.refused()
        } else {
            exists|reply: LedgerReply|
                call_ensures(ledger, (self.call(asset),), reply)
                    && outcome == #[trigger] self.settled(reply)
        }
    }

    /// Classifies a request with a positive amount by the ledger's reply.
    pub fn settle(&self, reply: LedgerReply) -> (outcome: BurnResult)
        ensures
            outcome == self.settled(reply),
    {
        match reply {
            LedgerReply::Accepted => BurnResult::Success(self.owner, self.amount),
            LedgerReply::Rejected => BurnResult::Failure(
                self.owner,
                self.amount,
                LEDGER_REJECTED,
            ),
        }
    }

    /// Handles one burn.
    ///
    /// An amount that is not positive fails with `INVALID_AMOUNT` and the
    /// ledger is not asked. Otherwise the ledger is asked once to remove the
    /// amount from the owner's balance, and its reply decides between
    /// `Success` and a failure with `LEDGER_REJECTED`.
    pub fn handle<L: Fn(LedgerCall) -> LedgerReply>(
        &self,
        asset: Identity,
        ledger: &L,
    ) -> (outcome: BurnResult)
        requires
            self.amount > 0 ==> call_requires(*ledger, (self.call(asset),)),
        ensures
            self.settles(*ledger, asset, outcome),
    {
        if self.amount <= 0 {
            BurnResult::Failure(self.owner, self.amount, INVALID_AMOUNT)
        } else {
            let reply = ledger(
                LedgerCall::Burn { asset, from: self.owner, amount: self.amount },
            );
            self.settle(reply)
        }
    }
}

/// Whether `outcome` moves no more than `request` asks for: nothing, or the
/// requested amount where that is positive.
pub open spec fn burn_within(request: BurnRequest, outcome: BurnResult) -> bool {
    outcome.effected() == 0 || (request.amount > 0 && outcome.effected() == request.amount)
}

/// Outcomes that each stay within their request move together no more than
/// the requests' demand, and never a negative amount.
pub proof fn lemma_burn_volume_bounded(requests: Seq<BurnRequest>, results: Seq<BurnResult>)
    requires
        results.len() <= requests.len(),
        forall|i: int|
            0 <= i < results.len() ==> burn_within(#[trigger] requests[i], results[i]),
    ensures
        0 <= volume(results) <= burn_demand(requests),
    decreases requests.len(),
{
    if requests.len() > 0 {
        if results.len() == requests.len() {
            assert(burn_within(requests[requests.len() - 1], results.last()));
            lemma_burn_volume_bounded(requests.drop_last(), results.drop_last());
        } else {
            lemma_burn_volume_bounded(requests.drop_last(), results);
        }
    }
}

/// A request whose amount is not positive fails with `INVALID_AMOUNT`
/// whatever the ledger would say and wherever the request stands in its
/// batch, and it moves nothing.
pub proof fn lemma_burn_invalid_amount<L: Fn(LedgerCall) -> LedgerReply>(
    request: BurnRequest,
    ledger: L,
    asset: Identity,
    outcome: BurnResult,
)
    requires
        request.amount <= 0,
        request.settles(ledger, asset, outcome),
    ensures
        outcome == BurnResult::Failure(request.owner, request.amount, INVALID_AMOUNT),
        !outcome.succeeded(),
        outcome.effected() == 0,
{
}

/// A request whose amount is positive succeeds with that amount or fails
/// with `LEDGER_REJECTED`: the ledger's reply decides, and no other outcome
/// is possible.
pub proof fn lemma_burn_valid_amount<L: Fn(LedgerCall) -> LedgerReply>(
    request: BurnRequest,
    ledger: L,
    asset: Identity,
    outcome: BurnResult,
)
    requires
        request.amount > 0,
        request.settles(ledger, asset, outcome),
    ensures
        outcome == BurnResult::Success(request.owner, request.amount) || outcome
            == BurnResult::Failure(request.owner, request.amount, LEDGER_REJECTED),
        burn_within(request, outcome),
{
}

/// The outcomes of the first requests of a batch move together no more than
/// the whole batch demands, and never a negative amount, whatever the ledger
/// replied.
pub proof fn lemma_burn_settled_bounded<L: Fn(LedgerCall) -> LedgerReply>(
    requests: Seq<BurnRequest>,
    results: Seq<BurnResult>,
    ledger: L,
    asset: Identity,
)
    requires
        results.len() <= requests.len(),
        forall|i: int|
            0 <= i < results.len() ==> (#[trigger] requests[i]).settles(ledger, asset, results[i]),
    ensures
        0 <= volume(results) <= burn_demand(requests),
{
    assert forall|i: int| 0 <= i < results.len() implies burn_within(
        #[trigger] requests[i],
        results[i],
    ) by {
        assert(requests[i].settles(ledger, asset, results[i]));
    }
    lemma_burn_volume_bounded(requests, results);
}

} // verus!
