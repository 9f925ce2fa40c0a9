//! The transfer engine: batches of transfers and burns against an asset
//! ledger, with the counters and the event log that they feed.

use vstd::prelude::*;
use crate::access::{admits, AccessController};
use crate::burn::{
    burn_demand, lemma_burn_settled_bounded, BatchBurnResult, BurnRequest, BurnResult,
};
use crate::error::EngineError;
use crate::identity::{Caller, Identity};
use crate::ledger::{LedgerCall, LedgerReply};
use crate::outcome::{emit_items, lemma_totals_push, BatchLog};
use crate::transfer::{
    lemma_transfer_settled_bounded, transfer_demand, BatchTransferResult, TransferRequest,
    TransferResult,
};

verus! {

/// An entry of the transfer engine's event log.
#[derive(Clone, Copy, Debug, PartialEq, Eq, Structural)]
pub enum TransferEvent {
    /// A transfer batch of `requests` requests has begun.
    TransferBatchStarted { requests: u64 },
    /// One transfer request was settled.
    Transfer(TransferResult),
    /// A transfer batch has ended with these totals.
    TransferBatchCompleted { successful: u64, failed: u64, total_transferred: i128 },
    /// A burn batch of `requests` requests has begun.
    BurnBatchStarted { requests: u64 },
    /// One burn request was settled.
    Burn(BurnResult),
    /// A burn batch has ended with these totals.
    BurnBatchCompleted { successful: u64, failed: u64, total_burned: i128 },
}

/// The events of a transfer batch that returned `out`, in the order in which
/// they are emitted: the start, one event for each request in request order,
/// and the end.
pub open spec fn transfer_events(out: BatchTransferResult) -> Seq<TransferEvent> {
    seq![TransferEvent::TransferBatchStarted { requests: out.total_requests }]
        + out.results@.map_values(|r: TransferResult| TransferEvent::Transfer(r))
        + seq![
        TransferEvent::TransferBatchCompleted {
            successful: out.successful,
            failed: out.failed,
            total_transferred: out.total_transferred,
        },
    ]
}

/// The events of a burn batch that returned `out`, in the order in which they
/// are emitted.
pub open spec fn burn_events(out: BatchBurnResult) -> Seq<TransferEvent> {
    seq![TransferEvent::BurnBatchStarted { requests: out.total_requests }]
        + out.results@.map_values(|r: BurnResult| TransferEvent::Burn(r))
        + seq![
        TransferEvent::BurnBatchCompleted {
            successful: out.successful,
            failed: out.failed,
            total_burned: out.total_burned,
        },
    ]
}

/// The state of a transfer engine.
#[verifier::ext_equal]
pub struct TransferState {
    /// The admin, if one has been set.
    pub admin: Option<Identity>,
    /// The number of batches committed.
    pub total_batches: nat,
    /// The number of requests in the committed batches.
    pub total_transfers_processed: nat,
    /// The sum of the amounts that the committed batches moved or burned.
    pub total_volume_transferred: int,
    /// The events emitted and not yet taken out, oldest first.
    pub events: Seq<TransferEvent>,
}

impl TransferState {
    /// The state after one more batch of `requests` requests that moved
    /// `moved` and emitted `emitted`.
    pub open spec fn after_batch(self, requests: nat, moved: int, emitted: Seq<TransferEvent>)
        -> TransferState {
        TransferState {
            admin: self.admin,
            total_batches: self.total_batches + 1,
            total_transfers_processed: self.total_transfers_processed + requests,
            total_volume_transferred: self.total_volume_transferred + moved,
            events: self.events + emitted,
        }
    }

    /// Whether the counters can take one more batch of `requests` requests.
    pub open spec fn counters_have_room(self, requests: nat) -> bool {
        self.total_batches < u64::MAX && self.total_transfers_processed + requests <= u64::MAX
    }
}

/// The transfer engine.
///
/// It keeps the admin, three counters and a log of the events that its
/// batches have emitted. The balances are kept by the asset ledger, which
/// the engine reaches through the `ledger` argument of its batch calls.
pub struct BatchTransferContract {
    access: AccessController,
    total_batches: u64,
    total_transfers_processed: u64,
    total_volume_transferred: i128,
    events: Vec<TransferEvent>,
}

impl View for BatchTransferContract {
    type V = TransferState;

    closed spec fn view(&self) -> TransferState {
        TransferState {
            admin: self.access@,
            total_batches: self.total_batches as nat,
            total_transfers_processed: self.total_transfers_processed as nat,
            total_volume_transferred: self.total_volume_transferred as int,
            events: self.events@,
        }
    }
}

impl BatchTransferContract {
    /// The counters are in the range of their types, and the volume is not
    /// negative.
    pub open spec fn wf(&self) -> bool {
        &&& self@.total_batches <= u64::MAX
        &&& self@.total_transfers_processed <= u64::MAX
        &&& 0 <= self@.total_volume_transferred <= i128::MAX
    }

    /// An engine without an admin, with all counters at zero and no events.
    pub fn new() -> (engine: BatchTransferContract)
        ensures
            engine.wf(),
            engine@ == (TransferState {
                admin: None,
                total_batches: 0,
                total_transfers_processed: 0,
                total_volume_transferred: 0,
                events: Seq::empty(),
            }),
    {
        BatchTransferContract {
            access: AccessController::new(),
            total_batches: 0,
            total_transfers_processed: 0,
            total_volume_transferred: 0,
            events: Vec::new(),
        }
    }

    /// An engine with the given admin and counters and no events, or `None`
    /// when the volume is negative.
    pub fn restore(
        admin: Option<Identity>,
        total_batches: u64,
        total_transfers_processed: u64,
        total_volume_transferred: i128,
    ) -> (restored: Option<BatchTransferContract>)
        ensures
            total_volume_transferred < 0 ==> restored is None,
            total_volume_transferred >= 0 ==> restored is Some && restored->0.wf() && restored->0@
                == (TransferState {
                admin,
                total_batches: total_batches as nat,
                total_transfers_processed: total_transfers_processed as nat,
                total_volume_transferred: total_volume_transferred as int,
                events: Seq::empty(),
            }),
    {
        if total_volume_transferred < 0 {
            None
        } else {
            Some(
                BatchTransferContract {
                    access: AccessController::restore(admin),
                    total_batches,
                    total_transfers_processed,
                    total_volume_transferred,
                    events: Vec::new(),
                },
            )
        }
    }

    /// Sets the first admin.
    ///
    /// Fails with `AlreadyInitialized`, and changes nothing, when the engine
    /// already has one.
    pub fn initialize(&mut self, admin: Identity) -> (r: Result<(), EngineError>)
        requires
            old(self).wf(),
        ensures
            final(self).wf(),
            old(self)@.admin is None ==> r is Ok && final(self)@ == (TransferState {
                admin: Some(admin),
                ..old(self)@
            }),
            old(self)@.admin is Some ==> r == Err::<(), EngineError>(
                EngineError::AlreadyInitialized,
            ) && *final(self) == *old(self),
    {
        let mut access = self.access;
        match access.initialize(admin) {
            Ok(()) => {
                self.access = access;
                Ok(())
            },
            Err(e) => Err(e),
        }
    }

    /// Lets the call go on only for the proven admin: `Ok` exactly when
    /// `admits(self@.admin, caller)`, else `Unauthorized`.
    pub fn require_admin(&self, caller: &Caller) -> (r: Result<(), EngineError>)
        ensures
            admits(self@.admin, *caller) ==> r is Ok,
            !admits(self@.admin, *caller) ==> r == Err::<(), EngineError>(
                EngineError::Unauthorized,
            ),
    {
        self.access.require_admin(caller)
    }

    /// Hands the admin role to `new_admin`.
    ///
    /// Only the proven admin may do so; for any other caller the call fails
    /// with `Unauthorized` and changes nothing.
    pub fn set_admin(&mut self, caller: &Caller, new_admin: Identity) -> (r: Result<
        (),
        EngineError,
    >)
        requires
            old(self).wf(),
        ensures
            final(self).wf(),
            admits(old(self)@.admin, *caller) ==> r is Ok && final(self)@ == (TransferState {
                admin: Some(new_admin),
                ..old(self)@
            }),
            !admits(old(self)@.admin, *caller) ==> r == Err::<(), EngineError>(
                EngineError::Unauthorized,
            ) && *final(self) == *old(self),
    {
        let mut access = self.access;
        match access.set_admin(caller, new_admin) {
            Ok(()) => {
                self.access = access;
                Ok(())
            },
            Err(e) => Err(e),
        }
    }

    /// The admin, or `None` before `initialize`.
    pub fn get_admin(&self) -> (admin: Option<Identity>)
        ensures
            admin == self@.admin,
    {
        self.access.get_admin()
    }

    /// The number of batches committed.
    pub fn get_total_batches(&self) -> (n: u64)
        ensures
            n == self@.total_batches,
    {
        self.total_batches
    }

    /// The number of requests in the committed batches.
    pub fn get_total_transfers_processed(&self) -> (n: u64)
        ensures
            n == self@.total_transfers_processed,
    {
        self.total_transfers_processed
    }

    /// The sum of the amounts that the committed batches moved or burned.
    pub fn get_total_volume_transferred(&self) -> (v: i128)
        ensures
            v == self@.total_volume_transferred,
    {
        self.total_volume_transferred
    }

    /// The events emitted and not yet taken out, oldest first.
    pub fn events(&self) -> (events: &Vec<TransferEvent>)
        ensures
            events@ == self@.events,
    {
        &self.events
    }

    /// Takes the events out of the engine, oldest first, and leaves the log
    /// empty.
    pub fn take_events(&mut self) -> (events: Vec<TransferEvent>)
        requires
            old(self).wf(),
        ensures
            final(self).wf(),
            events@ == old(self)@.events,
            final(self)@ == (TransferState { events: Seq::empty(), ..old(self)@ }),
    {
        let mut events: Vec<TransferEvent> = Vec::new();
        events.append(&mut self.events);
        assert(events@ =~= old(self)@.events);
        events
    }

    /// Runs a batch of transfers of `asset`, paid by the caller.
    ///
    /// The call is refused as a whole, with nothing changed and nothing
    /// emitted, for a caller that is not the proven admin (`Unauthorized`),
    /// then for an empty batch (`EmptyBatch`), then when the batch or request
    /// counter has no room for the batch (`Overflow`); in none of these cases
    /// is the ledger asked. Otherwise each request is handled in order, as
    /// `TransferRequest::handle` says, and no outcome of one request stops
    /// the next. When the last request is settled, the batch is committed:
    /// the batch counter grows by one, the request counter by the number of
    /// requests, the volume by the sum of the amounts of the successes, and
    /// the batch's events are added to the log.
    ///
    /// `ledger` need only take calls with a positive amount: the engine has no
    /// leave to ask it about any other, so a request with such an amount
    /// cannot touch the ledger.
    ///
    /// When that sum, alone or added to the volume, would leave the range of
    /// `i128`, the call fails with `Overflow` and the engine is unchanged.
    /// The ledger may have been asked by then; whoever gave `ledger` must
    /// undo what it did. This cannot happen while the volume plus the
    /// batch's demand is in range.
    #[verifier::loop_isolation(false)]
    pub fn batch_transfer<L: Fn(LedgerCall) -> LedgerReply>(
        &mut self,
        caller: &Caller,
        asset: Identity,
        requests: &Vec<TransferRequest>,
        ledger: L,
    ) -> (r: Result<BatchTransferResult, EngineError>)
        requires
            old(self).wf(),
            forall|call: LedgerCall|
                call.amount() > 0 ==> #[trigger] call_requires(ledger, (call,)),
        ensures
            final(self).wf(),
            !admits(old(self)@.admin, *caller) ==> r == Err::<BatchTransferResult, EngineError>(
                EngineError::Unauthorized,
            ),
            admits(old(self)@.admin, *caller) && requests@.len() == 0 ==> r == Err::<
                BatchTransferResult,
                EngineError,
            >(EngineError::EmptyBatch),
            admits(old(self)@.admin, *caller) && requests@.len() > 0 && !old(
                self,
            )@.counters_have_room(requests@.len()) ==> r == Err::<
                BatchTransferResult,
                EngineError,
            >(EngineError::Overflow),
            admits(old(self)@.admin, *caller) && requests@.len() > 0 && old(
                self,
            )@.counters_have_room(requests@.len()) ==> (r is Ok || r == Err::<
                BatchTransferResult,
                EngineError,
            >(EngineError::Overflow)),
            admits(old(self)@.admin, *caller) && requests@.len() > 0 && old(
                self,
            )@.counters_have_room(requests@.len()) && old(self)@.total_volume_transferred
                + transfer_demand(requests@) <= i128::MAX ==> r is Ok,
            r is Err ==> *final(self) == *old(self),
            r is Ok ==> {
                let out = r->Ok_0;
                &&& out.wf()
                &&& out.results@.len() == requests@.len()
                &&& 0 <= out.total_transferred
                &&& forall|i: int|
                    0 <= i < requests@.len() ==> (#[trigger] requests@[i]).settles(
                        ledger,
                        asset,
                        caller.identity,
                        out.results@[i],
                    )
                &&& final(self)@ == old(self)@.after_batch(
                    requests@.len(),
                    out.total_transferred as int,
                    transfer_events(out),
                )
            },
    {
        match self.access.require_admin(caller) {
            Err(e) => {
                return Err(e);
            },
            Ok(()) => {},
        }
        if requests.len() == 0 {
            return Err(EngineError::EmptyBatch);
        }
        let total_requests = requests.len() as u64;
        if self.total_batches == u64::MAX || total_requests > u64::MAX
            - self.total_transfers_processed {
            return Err(EngineError::Overflow);
        }
        let source = caller.identity;
        let mut log: BatchLog<TransferResult> = BatchLog::new();
        let mut i: usize = 0;
        while i < requests.len()
            invariant
                0 <= i <= requests@.len(),
                log.wf(),
                log@.len() == i,
                forall|j: int|
                    0 <= j < i ==> (#[trigger] requests@[j]).settles(
                        ledger,
                        asset,
                        source,
                        log@[j],
                    ),
                *self == *old(self),
            decreases requests@.len() - i,
        {
            let outcome = requests[i].handle(asset, source, &ledger);
            proof {
                lemma_transfer_settled_bounded(
                    requests@,
                    log@.push(outcome),
                    ledger,
                    asset,
                    source,
                );
                lemma_totals_push(log@, outcome);
            }
            match log.record(outcome) {
                Err(e) => {
                    return Err(e);
                },
                Ok(()) => {},
            }
            i = i + 1;
        }
        proof {
            lemma_transfer_settled_bounded(requests@, log@, ledger, asset, source);
        }
        let total_transferred = log.volume();
        let new_volume = match self.total_volume_transferred.checked_add(total_transferred) {
            None => {
                return Err(EngineError::Overflow);
            },
            Some(v) => v,
        };
        let successful = log.successful();
        let failed = log.failed();
        let out = BatchTransferResult {
            total_requests: log.total(),
            successful,
            failed,
            total_transferred,
            results: log.into_results(),
        };
        self.total_batches = self.total_batches + 1;
        self.total_transfers_processed = self.total_transfers_processed + total_requests;
        self.total_volume_transferred = new_volume;
        emit_transfer_events(&mut self.events, &out);
        Ok(out)
    }

    /// Runs a batch of burns of `asset`.
    ///
    /// The call is refused as a whole, with nothing changed and nothing
    /// emitted, for a caller that is not the proven admin (`Unauthorized`),
    /// then for an empty batch (`EmptyBatch`), then when the batch or request
    /// counter has no room for the batch (`Overflow`); in none of these cases
    /// is the ledger asked. Otherwise each request is handled in order, as
    /// `BurnRequest::handle` says, and no outcome of one request stops the
    /// next. When the last request is settled, the batch is committed: the
    /// batch counter grows by one, the request counter by the number of
    /// requests, the volume by the sum of the amounts of the successes, and
    /// the batch's events are added to the log.
    ///
    /// `ledger` need only take calls with a positive amount: the engine has no
    /// leave to ask it about any other, so a request with such an amount
    /// cannot touch the ledger.
    ///
    /// When that sum, alone or added to the volume, would leave the range of
    /// `i128`, the call fails with `Overflow` and the engine is unchanged.
    /// The ledger may have been asked by then; whoever gave `ledger` must
    /// undo what it did. This cannot happen while the volume plus the
    /// batch's demand is in range.
    #[verifier::loop_isolation(false)]
    pub fn batch_burn<L: Fn(LedgerCall) -> LedgerReply>(
        &mut self,
        caller: &Caller,
        asset: Identity,
        requests: &Vec<BurnRequest>,
        ledger: L,
    ) -> (r: Result<BatchBurnResult, EngineError>)
        requires
            old(self).wf(),
            forall|call: LedgerCall|
                call.amount() > 0 ==> #[trigger] call_requires(ledger, (call,)),
        ensures
            final(self).wf(),
            !admits(old(self)@.admin, *caller) ==> r == Err::<BatchBurnResult, EngineError>(
                EngineError::Unauthorized,
            ),
            admits(old(self)@.admin, *caller) && requests@.len() == 0 ==> r == Err::<
                BatchBurnResult,
                EngineError,
            >(EngineError::EmptyBatch),
            admits(old(self)@.admin, *caller) && requests@.len() > 0 && !old(
                self,
            )@.counters_have_room(requests@.len()) ==> r == Err::<BatchBurnResult, EngineError>(
                EngineError::Overflow,
            ),
            admits(old(self)@.admin, *caller) && requests@.len() > 0 && old(
                self,
            )@.counters_have_room(requests@.len()) ==> (r is Ok || r == Err::<
                BatchBurnResult,
                EngineError,
            >(EngineError::Overflow)),
            admits(old(self)@.admin, *caller) && requests@.len() > 0 && old(
                self,
            )@.counters_have_room(requests@.len()) && old(self)@.total_volume_transferred
                + burn_demand(requests@) <= i128::MAX ==> r is Ok,
            r is Err ==> *final(self) == *old(self),
            r is Ok ==> {
                let out = r->Ok_0;
                &&& out.wf()
                &&& out.results@.len() == requests@.len()
                &&& 0 <= out.total_burned
                &&& forall|i: int|
                    0 <= i < requests@.len() ==> (#[trigger] requests@[i]).settles(
                        ledger,
                        asset,
                        out.results@[i],
                    )
                &&& final(self)@ == old(self)@.after_batch(
                    requests@.len(),
                    out.total_burned as int,
                    burn_events(out),
                )
            },
    {
        match self.access.require_admin(caller) {
            Err(e) => {
                return Err(e);
            },
            Ok(()) => {},
        }
        if requests.len() == 0 {
            return Err(EngineError::EmptyBatch);
        }
        let total_requests = requests.len() as u64;
        if self.total_batches == u64::MAX || total_requests > u64::MAX
            - self.total_transfers_processed {
            return Err(EngineError::Overflow);
        }
        let mut log: BatchLog<BurnResult> = BatchLog::new();
        let mut i: usize = 0;
        while i < requests.len()
            invariant
                0 <= i <= requests@.len(),
                log.wf(),
                log@.len() == i,
                forall|j: int|
                    0 <= j < i ==> (#[trigger] requests@[j]).settles(ledger, asset, log@[j]),
                *self == *old(self),
            decreases requests@.len() - i,
        {
            let outcome = requests[i].handle(asset, &ledger);
            proof {
                lemma_burn_settled_bounded(requests@, log@.push(outcome), ledger, asset);
                lemma_totals_push(log@, outcome);
            }
            match log.record(outcome) {
                Err(e) => {
                    return Err(e);
                },
                Ok(()) => {},
            }
            i = i + 1;
        }
        proof {
            lemma_burn_settled_bounded(requests@, log@, ledger, asset);
        }
        let total_burned = log.volume();
        let new_volume = match self.total_volume_transferred.checked_add(total_burned) {
            None => {
                return Err(EngineError::Overflow);
            },
            Some(v) => v,
        };
        let successful = log.successful();
        let failed = log.failed();
        let out = BatchBurnResult {
            total_requests: log.total(),
            successful,
            failed,
            total_burned,
            results: log.into_results(),
        };
        self.total_batches = self.total_batches + 1;
        self.total_transfers_processed = self.total_transfers_processed + total_requests;
        self.total_volume_transferred = new_volume;
        emit_burn_events(&mut self.events, &out);
        Ok(out)
    }
}

/// Appends the events of a transfer batch to `events`.
fn emit_transfer_events(events: &mut Vec<TransferEvent>, out: &BatchTransferResult)
    ensures
        final(events)@ == old(events)@ + transfer_events(*out),
{
    events.push(TransferEvent::TransferBatchStarted { requests: out.total_requests });
    let wrap = |r: TransferResult| -> (e: TransferEvent)
        ensures
            e == TransferEvent::Transfer(r),
        { TransferEvent::Transfer(r) };
    emit_items(events, &out.results, wrap, Ghost(|r: TransferResult| TransferEvent::Transfer(r)));
    events.push(
        TransferEvent::TransferBatchCompleted {
            successful: out.successful,
            failed: out.failed,
            total_transferred: out.total_transferred,
        },
    );
    assert(events@ =~= old(events)@ + transfer_events(*out));
}

/// Appends the events of a burn batch to `events`.
fn emit_burn_events(events: &mut Vec<TransferEvent>, out: &BatchBurnResult)
    ensures
        final(events)@ == old(events)@ + burn_events(*out),
{
    events.push(TransferEvent::BurnBatchStarted { requests: out.total_requests });
    let wrap = |r: BurnResult| -> (e: TransferEvent)
        ensures
            e == TransferEvent::Burn(r),
        { TransferEvent::Burn(r) };
    emit_items(events, &out.results, wrap, Ghost(|r: BurnResult| TransferEvent::Burn(r)));
    events.push(
        TransferEvent::BurnBatchCompleted {
            successful: out.successful,
            failed: out.failed,
            total_burned: out.total_burned,
        },
    );
    assert(events@ =~= old(events)@ + burn_events(*out));
}

} // verus!
