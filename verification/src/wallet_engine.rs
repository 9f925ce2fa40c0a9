//! The wallet engine: batches that create wallets and batches that pass
//! wallets on to new owners, with the counters and the event log that they
//! feed.

use vstd::prelude::*;
use crate::access::{admits, AccessController};
use crate::error::EngineError;
use crate::identity::{Caller, Identity};
use crate::outcome::{emit_items, failures, successes, BatchLog};
use crate::wallet::{
    lemma_create_all_grows, lemma_create_all_sound, lemma_recover_all_sound, BatchCreateResult,
    BatchRecoveryResult, Registry, WalletCreateRequest, WalletCreateResult,
    WalletRecoveryRequest, WalletRecoveryResult,
};
use crate::wallet_registry::{distinct_ids, ids_issued, WalletRegistry};
use crate::wallet_store::{distinct_owners, wallets_by_owner, Wallet};

verus! {

/// An entry of the wallet engine's event log.
#[derive(Clone, Copy, Debug, PartialEq, Eq, Structural)]
pub enum WalletEvent {
    /// A creation batch of `requests` requests has begun.
    CreateBatchStarted { requests: u64 },
    /// One creation request was settled.
    Create(WalletCreateResult),
    /// A creation batch has ended with these totals.
    CreateBatchCompleted { successful: u64, failed: u64 },
    /// A recovery batch of `requests` requests has begun.
    RecoveryBatchStarted { requests: u64 },
    /// One recovery request was settled.
    Recovery(WalletRecoveryResult),
    /// A recovery batch has ended with these totals.
    RecoveryBatchCompleted { successful: u64, failed: u64 },
}

/// The events of a creation batch with the outcomes `results`, in the order
/// in which they are emitted: the start, one event for each request in
/// request order, and the end.
pub open spec fn create_events(results: Seq<WalletCreateResult>) -> Seq<WalletEvent> {
    seq![WalletEvent::CreateBatchStarted { requests: results.len() as u64 }]
        + results.map_values(|r: WalletCreateResult| WalletEvent::Create(r))
        + seq![
        WalletEvent::CreateBatchCompleted {
            successful: successes(results) as u64,
            failed: failures(results) as u64,
        },
    ]
}

/// The events of a recovery batch with the outcomes `results`, in the order
/// in which they are emitted.
pub open spec fn recovery_events(results: Seq<WalletRecoveryResult>) -> Seq<WalletEvent> {
    seq![WalletEvent::RecoveryBatchStarted { requests: results.len() as u64 }]
        + results.map_values(|r: WalletRecoveryResult| WalletEvent::Recovery(r))
        + seq![
        WalletEvent::RecoveryBatchCompleted {
            successful: successes(results) as u64,
            failed: failures(results) as u64,
        },
    ]
}

/// The state of a wallet engine.
#[verifier::ext_equal]
pub struct WalletState {
    /// The admin, if one has been set.
    pub admin: Option<Identity>,
    /// The wallets and the identifier issued last.
    pub registry: Registry,
    /// The number of batches committed, creations and recoveries alike.
    pub total_batches: nat,
    /// The number of wallets created.
    pub total_wallets_created: nat,
    /// The events emitted and not yet taken out, oldest first.
    pub events: Seq<WalletEvent>,
}

impl WalletState {
    /// Whether the counters and the identifiers can take the creation batch
    /// `requests`.
    pub open spec fn can_create(self, requests: Seq<WalletCreateRequest>) -> bool {
        &&& self.total_batches < u64::MAX
        &&& self.registry.create_all(requests).last_id <= u64::MAX
        &&& self.total_wallets_created + successes(self.registry.create_outcomes(requests))
            <= u64::MAX
    }

    /// The state after the creation batch `requests`.
    pub open spec fn after_create(self, requests: Seq<WalletCreateRequest>) -> WalletState {
        WalletState {
            admin: self.admin,
            registry: self.registry.create_all(requests),
            total_batches: self.total_batches + 1,
            total_wallets_created: self.total_wallets_created + successes(
                self.registry.create_outcomes(requests),
            ),
            events: self.events + create_events(self.registry.create_outcomes(requests)),
        }
    }

    /// The state after the recovery batch `requests`.
    pub open spec fn after_recover(self, requests: Seq<WalletRecoveryRequest>) -> WalletState {
        WalletState {
            admin: self.admin,
            registry: self.registry.recover_all(requests),
            total_batches: self.total_batches + 1,
            total_wallets_created: self.total_wallets_created,
            events: self.events + recovery_events(self.registry.recover_outcomes(requests)),
        }
    }
}

/// The wallet engine.
///
/// It keeps the admin, the wallets with the allocator of their identifiers,
/// two counters and a log of the events that its batches have emitted.
pub struct BatchWalletContract {
    access: AccessController,
    registry: WalletRegistry,
    total_batches: u64,
    total_wallets_created: u64,
    events: Vec<WalletEvent>,
}

impl View for BatchWalletContract {
    type V = WalletState;

    closed spec fn view(&self) -> WalletState {
        WalletState {
            admin: self.access@,
            registry: self.registry@,
            total_batches: self.total_batches as nat,
            total_wallets_created: self.total_wallets_created as nat,
            events: self.events@,
        }
    }
}

impl BatchWalletContract {
    /// The engine keeps at most one wallet for each owner.
    pub closed spec fn stored_soundly(&self) -> bool {
        self.registry.stored_soundly()
    }

    /// The registry is sound and the counters are in the range of their
    /// type.
    pub open spec fn wf(&self) -> bool {
        &&& self.stored_soundly()
        &&& self@.registry.wf()
        &&& self@.registry.last_id <= u64::MAX
        &&& self@.total_batches <= u64::MAX
        &&& self@.total_wallets_created <= u64::MAX
    }

    /// An engine without an admin and without wallets, with all counters at
    /// zero and no events.
    pub fn new() -> (engine: BatchWalletContract)
        ensures
            engine.wf(),
            engine@ == (WalletState {
                admin: None,
                registry: Registry { wallets: Map::empty(), last_id: 0 },
                total_batches: 0,
                total_wallets_created: 0,
                events: Seq::empty(),
            }),
    {
        BatchWalletContract {
            access: AccessController::new(),
            registry: WalletRegistry::new(),
            total_batches: 0,
            total_wallets_created: 0,
            events: Vec::new(),
        }
    }

    /// An engine with the given admin, counters and wallets and no events.
    ///
    /// Returns `None` exactly when the wallets cannot have come from an
    /// engine: an owner or an identifier occurs twice, or an identifier is 0
    /// or above `last_id`.
    pub fn restore(
        admin: Option<Identity>,
        last_id: u64,
        total_batches: u64,
        total_wallets_created: u64,
        wallets: &Vec<Wallet>,
    ) -> (restored: Option<BatchWalletContract>)
        ensures
            restored is Some <==> distinct_owners(wallets@) && distinct_ids(wallets@)
                && ids_issued(wallets@, last_id),
            restored is Some ==> restored->0.wf() && restored->0@ == (WalletState {
                admin,
                registry: Registry {
                    wallets: wallets_by_owner(wallets@),
                    last_id: last_id as nat,
                },
                total_batches: total_batches as nat,
                total_wallets_created: total_wallets_created as nat,
                events: Seq::empty(),
            }),
    {
        match WalletRegistry::restore(last_id, wallets) {
            None => None,
            Some(registry) => Some(
                BatchWalletContract {
                    access: AccessController::restore(admin),
                    registry,
                    total_batches,
                    total_wallets_created,
                    events: Vec::new(),
                },
            ),
        }
    }

    /// Sets the first admin.
    ///
    /// Fails with `AlreadyInitialized`, and changes nothing, when the engine
    /// already has one.
    pub fn initialize(&mut self, admin: Identity) -> (r: Result<(), EngineError>)
        requires
            old(self).wf(),
        ensures
            final(self).wf(),
            old(self)@.admin is None ==> r is Ok && final(self)@ == (WalletState {
                admin: Some(admin),
                ..old(self)@
            }),
            old(self)@.admin is Some ==> r == Err::<(), EngineError>(
                EngineError::AlreadyInitialized,
            ) && *final(self) == *old(self),
    {
        let mut access = self.access;
        match access.initialize(admin) {
            Ok(()) => {
                self.access = access;
                Ok(())
            },
            Err(e) => Err(e),
        }
    }

    /// Lets the call go on only for the proven admin: `Ok` exactly when
    /// `admits(self@.admin, caller)`, else `Unauthorized`.
    pub fn require_admin(&self, caller: &Caller) -> (r: Result<(), EngineError>)
        ensures
            admits(self@.admin, *caller) ==> r is Ok,
            !admits(self@.admin, *caller) ==> r == Err::<(), EngineError>(
                EngineError::Unauthorized,
            ),
    {
        self.access.require_admin(caller)
    }

    /// Hands the admin role to `new_admin`.
    ///
    /// Only the proven admin may do so; for any other caller the call fails
    /// with `Unauthorized` and changes nothing.
    pub fn set_admin(&mut self, caller: &Caller, new_admin: Identity) -> (r: Result<
        (),
        EngineError,
    >)
        requires
            old(self).wf(),
        ensures
            final(self).wf(),
            admits(old(self)@.admin, *caller) ==> r is Ok && final(self)@ == (WalletState {
                admin: Some(new_admin),
                ..old(self)@
            }),
            !admits(old(self)@.admin, *caller) ==> r == Err::<(), EngineError>(
                EngineError::Unauthorized,
            ) && *final(self) == *old(self),
    {
        let mut access = self.access;
        match access.set_admin(caller, new_admin) {
            Ok(()) => {
                self.access = access;
                Ok(())
            },
            Err(e) => Err(e),
        }
    }

    /// The admin, or `None` before `initialize`.
    pub fn get_admin(&self) -> (admin: Option<Identity>)
        ensures
            admin == self@.admin,
    {
        self.access.get_admin()
    }

    /// The number of batches committed, creations and recoveries alike.
    pub fn get_total_batches(&self) -> (n: u64)
        ensures
            n == self@.total_batches,
    {
        self.total_batches
    }

    /// The number of wallets created.
    pub fn get_total_wallets_created(&self) -> (n: u64)
        ensures
            n == self@.total_wallets_created,
    {
        self.total_wallets_created
    }

    /// The identifier issued last, or 0 when none was issued.
    pub fn get_last_id(&self) -> (last: u64)
        ensures
            last == self@.registry.last_id,
    {
        self.registry.last_id()
    }

    /// The wallet of `owner`, or `None` when it has none.
    pub fn get_wallet(&self, owner: &Identity) -> (found: Option<Wallet>)
        requires
            self.wf(),
        ensures
            found is Some <==> self@.registry.wallets.dom().contains(*owner),
            found is Some ==> found->0.owner == *owner && found->0.id
                == self@.registry.wallets[*owner],
    {
        self.registry.get_wallet(owner)
    }

    /// The events emitted and not yet taken out, oldest first.
    pub fn events(&self) -> (events: &Vec<WalletEvent>)
        ensures
            events@ == self@.events,
    {
        &self.events
    }

    /// Takes the events out of the engine, oldest first, and leaves the log
    /// empty.
    pub fn take_events(&mut self) -> (events: Vec<WalletEvent>)
        requires
            old(self).wf(),
        ensures
            final(self).wf(),
            events@ == old(self)@.events,
            final(self)@ == (WalletState { events: Seq::empty(), ..old(self)@ }),
    {
        let mut events: Vec<WalletEvent> = Vec::new();
        events.append(&mut self.events);
        assert(events@ =~= old(self)@.events);
        events
    }

    /// Runs a batch of creations.
    ///
    /// The call is refused as a whole, with nothing changed and nothing
    /// emitted, for a caller that is not the proven admin (`Unauthorized`),
    /// then for an empty batch (`EmptyBatch`), then when the batch counter,
    /// the identifiers or the counter of wallets cannot take the batch
    /// (`Overflow`). Otherwise each request is handled in order, as
    /// `WalletRegistry::create` says, each on the registry as the requests
    /// before it have left it; a failed request does not stop the next. The
    /// identifiers of the new wallets follow the last one issued without a
    /// gap, in request order. With the last request the batch is committed:
    /// the batch counter grows by one, the counter of wallets by the number
    /// of successes, and the batch's events are added to the log.
    #[verifier::loop_isolation(false)]
    pub fn batch_create_wallets(&mut self, caller: &Caller, requests: &Vec<WalletCreateRequest>)
        -> (r: Result<BatchCreateResult, EngineError>)
        requires
            old(self).wf(),
        ensures
            final(self).wf(),
            !admits(old(self)@.admin, *caller) ==> r == Err::<BatchCreateResult, EngineError>(
                EngineError::Unauthorized,
            ),
            admits(old(self)@.admin, *caller) && requests@.len() == 0 ==> r == Err::<
                BatchCreateResult,
                EngineError,
            >(EngineError::EmptyBatch),
            admits(old(self)@.admin, *caller) && requests@.len() > 0 && !old(self)@.can_create(
                requests@,
            ) ==> r == Err::<BatchCreateResult, EngineError>(EngineError::Overflow),
            admits(old(self)@.admin, *caller) && requests@.len() > 0 && old(self)@.can_create(
                requests@,
            ) ==> r is Ok,
            r is Err ==> *final(self) == *old(self),
            r is Ok ==> {
                let out = r->Ok_0;
                &&& out.wf()
                &&& out.results@ == old(self)@.registry.create_outcomes(requests@)
                &&& final(self)@ == old(self)@.after_create(requests@)
            },
    {
        match self.access.require_admin(caller) {
            Err(e) => {
                return Err(e);
            },
            Ok(()) => {},
        }
        if requests.len() == 0 {
            return Err(EngineError::EmptyBatch);
        }
        if self.total_batches == u64::MAX {
            return Err(EngineError::Overflow);
        }
        let ghost start = self@.registry;
        let mut draft = self.registry.duplicate();
        let mut log: BatchLog<WalletCreateResult> = BatchLog::new();
        let mut i: usize = 0;
        assert(requests@.take(0) =~= Seq::<WalletCreateRequest>::empty());
        while i < requests.len()
            invariant
                0 <= i <= requests@.len(),
                draft.wf(),
                log.wf(),
                draft@ == start.create_all(requests@.take(i as int)),
                log@ == start.create_outcomes(requests@.take(i as int)),
                *self == *old(self),
            decreases requests@.len() - i,
        {
            assert(requests@.take(i + 1).drop_last() =~= requests@.take(i as int));
            match draft.create(&requests[i]) {
                Err(e) => {
                    proof {
                        lemma_create_all_grows(start, requests@, i + 1);
                    }
                    return Err(e);
                },
                Ok(outcome) => {
                    log.note(outcome);
                },
            }
            i = i + 1;
        }
        assert(requests@.take(requests@.len() as int) =~= requests@);
        proof {
            lemma_create_all_sound(start, requests@);
        }
        let successful = log.successful();
        if successful > u64::MAX - self.total_wallets_created {
            return Err(EngineError::Overflow);
        }
        let out = BatchCreateResult {
            total_requests: log.total(),
            successful,
            failed: log.failed(),
            results: log.into_results(),
        };
        self.registry = draft;
        self.total_batches = self.total_batches + 1;
        self.total_wallets_created = self.total_wallets_created + successful;
        emit_create_events(&mut self.events, &out);
        Ok(out)
    }

    /// Runs a batch of recoveries.
    ///
    /// The call is refused as a whole, with nothing changed and nothing
    /// emitted, for a caller that is not the proven admin (`Unauthorized`),
    /// then for an empty batch (`EmptyBatch`), then when the batch counter
    /// is at its largest value (`Overflow`). Otherwise each request is
    /// handled in order, as `WalletRegistry::recover` says, each on the
    /// registry as the requests before it have left it; a failed request
    /// does not stop the next. With the last request the batch is committed:
    /// the batch counter grows by one and the batch's events are added to the
    /// log. No identifier is issued and the counter of wallets stays.
    #[verifier::loop_isolation(false)]
    pub fn batch_recover_wallets(
        &mut self,
        caller: &Caller,
        requests: &Vec<WalletRecoveryRequest>,
    ) -> (r: Result<BatchRecoveryResult, EngineError>)
        requires
            old(self).wf(),
        ensures
            final(self).wf(),
            !admits(old(self)@.admin, *caller) ==> r == Err::<BatchRecoveryResult, EngineError>(
                EngineError::Unauthorized,
            ),
            admits(old(self)@.admin, *caller) && requests@.len() == 0 ==> r == Err::<
                BatchRecoveryResult,
                EngineError,
            >(EngineError::EmptyBatch),
            admits(old(self)@.admin, *caller) && requests@.len() > 0 && old(self)@.total_batches
                >= u64::MAX ==> r == Err::<BatchRecoveryResult, EngineError>(
                EngineError::Overflow,
            ),
            admits(old(self)@.admin, *caller) && requests@.len() > 0 && old(self)@.total_batches
                < u64::MAX ==> r is Ok,
            r is Err ==> *final(self) == *old(self),
            r is Ok ==> {
                let out = r->Ok_0;
                &&& out.wf()
                &&& out.results@ == old(self)@.registry.recover_outcomes(requests@)
                &&& final(self)@ == old(self)@.after_recover(requests@)
            },
    {
        match self.access.require_admin(caller) {
            Err(e) => {
                return Err(e);
            },
            Ok(()) => {},
        }
        if requests.len() == 0 {
            return Err(EngineError::EmptyBatch);
        }
        if self.total_batches == u64::MAX {
            return Err(EngineError::Overflow);
        }
        let ghost start = self@.registry;
        let mut log: BatchLog<WalletRecoveryResult> = BatchLog::new();
        let mut i: usize = 0;
        assert(requests@.take(0) =~= Seq::<WalletRecoveryRequest>::empty());
        while i < requests.len()
            invariant
                0 <= i <= requests@.len(),
                self.registry.wf(),
                log.wf(),
                self.registry@ == start.recover_all(requests@.take(i as int)),
                log@ == start.recover_outcomes(requests@.take(i as int)),
                self.access == old(self).access,
                self.total_batches == old(self).total_batches,
                self.total_wallets_created == old(self).total_wallets_created,
                self.events == old(self).events,
            decreases requests@.len() - i,
        {
            assert(requests@.take(i + 1).drop_last() =~= requests@.take(i as int));
            let outcome = self.registry.recover(&requests[i]);
            log.note(outcome);
            i = i + 1;
        }
        assert(requests@.take(requests@.len() as int) =~= requests@);
        proof {
            lemma_recover_all_sound(start, requests@);
        }
        let out = BatchRecoveryResult {
            total_requests: log.total(),
            successful: log.successful(),
            failed: log.failed(),
            results: log.into_results(),
        };
        self.total_batches = self.total_batches + 1;
        emit_recovery_events(&mut self.events, &out);
        Ok(out)
    }
}

/// Appends the events of a creation batch to `events`.
fn emit_create_events(events: &mut Vec<WalletEvent>, out: &BatchCreateResult)
    requires
        out.wf(),
    ensures
        final(events)@ == old(events)@ + create_events(out.results@),
{
    events.push(WalletEvent::CreateBatchStarted { requests: out.total_requests });
    let wrap = |r: WalletCreateResult| -> (e: WalletEvent)
        ensures
            e == WalletEvent::Create(r),
        { WalletEvent::Create(r) };
    emit_items(events, &out.results, wrap, Ghost(|r: WalletCreateResult| WalletEvent::Create(r)));
    events.push(
        WalletEvent::CreateBatchCompleted { successful: out.successful, failed: out.failed },
    );
    assert(events@ =~= old(events)@ + create_events(out.results@));
}

/// Appends the events of a recovery batch to `events`.
fn emit_recovery_events(events: &mut Vec<WalletEvent>, out: &BatchRecoveryResult)
    requires
        out.wf(),
    ensures
        final(events)@ == old(events)@ + recovery_events(out.results@),
{
    events.push(WalletEvent::RecoveryBatchStarted { requests: out.total_requests });
    let wrap = |r: WalletRecoveryResult| -> (e: WalletEvent)
        ensures
            e == WalletEvent::Recovery(r),
        { WalletEvent::Recovery(r) };
    emit_items(
        events,
        &out.results,
        wrap,
        Ghost(|r: WalletRecoveryResult| WalletEvent::Recovery(r)),
    );
    events.push(
        WalletEvent::RecoveryBatchCompleted { successful: out.successful, failed: out.failed },
    );
    assert(events@ =~= old(events)@ + recovery_events(out.results@));
}

} // verus!
