//! Requests and outcomes of the wallet engine, and the registry of wallets
//! as a mathematical model: what creating and recovering do to it.

use vstd::prelude::*;
use crate::identity::Identity;
use crate::outcome::{failures, successes, Outcome};

verus! {

/// Failure code of a creation: the owner already has a wallet.
pub const WALLET_EXISTS: u32 = 1;

/// Failure code of a recovery: the old owner has no wallet.
pub const SOURCE_NOT_FOUND: u32 = 1;

/// Failure code of a recovery: the new owner is the old one, or already has
/// a wallet.
pub const INVALID_DESTINATION: u32 = 2;

/// A request to create a wallet for `owner`.
#[derive(Clone, Copy, Debug, PartialEq, Eq, Structural)]
pub struct WalletCreateRequest {
    pub owner: Identity,
}

/// The outcome of one creation request.
#[derive(Clone, Copy, Debug, PartialEq, Eq, Structural)]
pub enum WalletCreateResult {
    /// A wallet was created for the owner.
    Success(Identity),
    /// No wallet was created. The fields are the owner and the failure code.
    Failure(Identity, u32),
}

/// A request to give the wallet of `old_owner` to `new_owner`.
#[derive(Clone, Copy, Debug, PartialEq, Eq, Structural)]
pub struct WalletRecoveryRequest {
    pub old_owner: Identity,
    pub new_owner: Identity,
}

/// The outcome of one recovery request.
#[derive(Clone, Copy, Debug, PartialEq, Eq, Structural)]
pub enum WalletRecoveryResult {
    /// The wallet of the first identity now belongs to the second.
    Success(Identity, Identity),
    /// Nothing was changed. The fields are the old owner, the new owner and
    /// the failure code.
    Failure(Identity, Identity, u32),
}

impl Outcome for WalletCreateResult {
    open spec fn succeeded(self) -> bool {
        self is Success
    }

    open spec fn effected(self) -> int {
        0
    }

    fn is_success(&self) -> (yes: bool) {
        match self {
            WalletCreateResult::Success(_) => true,
            WalletCreateResult::Failure(_, _) => false,
        }
    }

    fn amount_effected(&self) -> (amount: i128) {
        0
    }
}

impl Outcome for WalletRecoveryResult {
    open spec fn succeeded(self) -> bool {
        self is Success
    }

    open spec fn effected(self) -> int {
        0
    }

    fn is_success(&self) -> (yes: bool) {
        match self {
            WalletRecoveryResult::Success(_, _) => true,
            WalletRecoveryResult::Failure(_, _, _) => false,
        }
    }

    fn amount_effected(&self) -> (amount: i128) {
        0
    }
}

/// What a call of `batch_create_wallets` returns.
#[derive(Debug, PartialEq, Eq)]
pub struct BatchCreateResult {
    /// The number of requests in the batch.
    pub total_requests: u64,
    /// The number of requests that succeeded.
    pub successful: u64,
    /// The number of requests that failed.
    pub failed: u64,
    /// One outcome for each request, in request order.
    pub results: Vec<WalletCreateResult>,
}

impl BatchCreateResult {
    /// The totals are those of `results`: every request has one outcome, a
    /// success or a failure.
    pub open spec fn wf(&self) -> bool {
        &&& self.total_requests == self.results@.len()
        &&& self.total_requests == self.successful + self.failed
        &&& self.successful == successes(self.results@)
        &&& self.failed == failures(self.results@)
    }
}

/// What a call of `batch_recover_wallets` returns.
#[derive(Debug, PartialEq, Eq)]
pub struct BatchRecoveryResult {
    /// The number of requests in the batch.
    pub total_requests: u64,
    /// The number of requests that succeeded.
    pub successful: u64,
    /// The number of requests that failed.
    pub failed: u64,
    /// One outcome for each request, in request order.
    pub results: Vec<WalletRecoveryResult>,
}

impl BatchRecoveryResult {
    /// The totals are those of `results`: every request has one outcome, a
    /// success or a failure.
    pub open spec fn wf(&self) -> bool {
        &&& self.total_requests == self.results@.len()
        &&& self.total_requests == self.successful + self.failed
        &&& self.successful == successes(self.results@)
        &&& self.failed == failures(self.results@)
    }
}

/// The wallets of an engine and the identifier issued last.
#[verifier::ext_equal]
pub struct Registry {
    /// The identifier of each owner's wallet.
    pub wallets: Map<Identity, nat>,
    /// The identifier issued last, or 0 when none was issued.
    pub last_id: nat,
}

impl Registry {
    /// Every identifier in use was issued, and no two wallets share one.
    pub open spec fn wf(self) -> bool {
        &&& forall|owner: Identity| #[trigger]
            self.wallets.dom().contains(owner) ==> 1 <= self.wallets[owner] <= self.last_id
        &&& self.wallets.is_injective()
    }

    /// The outcome of `request` on this registry.
    pub open spec fn create_outcome(self, request: WalletCreateRequest) -> WalletCreateResult {
        if self.wallets.dom().contains(request.owner) {
            WalletCreateResult::Failure(request.owner, WALLET_EXISTS)
        } else {
            WalletCreateResult::Success(request.owner)
        }
    }

    /// The registry after `request`: an owner without a wallet gets one under
    /// the next identifier; for an owner who has one, nothing changes.
    pub open spec fn create(self, request: WalletCreateRequest) -> Registry {
        if self.wallets.dom().contains(request.owner) {
            self
        } else {
            Registry {
                wallets: self.wallets.insert(request.owner, self.last_id + 1),
                last_id: self.last_id + 1,
            }
        }
    }

    /// The outcome of `request` on this registry.
    pub open spec fn recover_outcome(self, request: WalletRecoveryRequest)
        -> WalletRecoveryResult {
        if !self.wallets.dom().contains(request.old_owner) {
            WalletRecoveryResult::Failure(request.old_owner, request.new_owner, SOURCE_NOT_FOUND)
        } else if request.new_owner == request.old_owner || self.wallets.dom().contains(
            request.new_owner,
        ) {
            WalletRecoveryResult::Failure(
                request.old_owner,
                request.new_owner,
                INVALID_DESTINATION,
            )
        } else {
            WalletRecoveryResult::Success(request.old_owner, request.new_owner)
        }
    }

    /// The registry after `request`: where the recovery succeeds, the wallet
    /// of the old owner is removed and entered again for the new owner under
    /// the same identifier; where it fails, nothing changes.
    pub open spec fn recover(self, request: WalletRecoveryRequest) -> Registry {
        if self.recover_outcome(request) is Success {
            Registry {
                wallets: self.wallets.remove(request.old_owner).insert(
                    request.new_owner,
                    self.wallets[request.old_owner],
                ),
                last_id: self.last_id,
            }
        } else {
            self
        }
    }

    /// The registry after the creation requests `requests`, taken in order.
    pub open spec fn create_all(self, requests: Seq<WalletCreateRequest>) -> Registry
        decreases requests.len(),
    {
        if requests.len() == 0 {
            self
        } else {
            self.create_all(requests.drop_last()).create(requests.last())
        }
    }

    /// The outcomes of the creation requests `requests`, taken in order: each
    /// meets the registry as the requests before it have left it.
    pub open spec fn create_outcomes(self, requests: Seq<WalletCreateRequest>) -> Seq<
        WalletCreateResult,
    >
        decreases requests.len(),
    {
        if requests.len() == 0 {
            Seq::empty()
        } else {
            self.create_outcomes(requests.drop_last()).push(
                self.create_all(requests.drop_last()).create_outcome(requests.last()),
            )
        }
    }

    /// The registry after the recovery requests `requests`, taken in order.
    pub open spec fn recover_all(self, requests: Seq<WalletRecoveryRequest>) -> Registry
        decreases requests.len(),
    {
        if requests.len() == 0 {
            self
        } else {
            self.recover_all(requests.drop_last()).recover(requests.last())
        }
    }

    /// The outcomes of the recovery requests `requests`, taken in order: each
    /// meets the registry as the requests before it have left it.
    pub open spec fn recover_outcomes(self, requests: Seq<WalletRecoveryRequest>) -> Seq<
        WalletRecoveryResult,
    >
        decreases requests.len(),
    {
        if requests.len() == 0 {
            Seq::empty()
        } else {
            self.recover_outcomes(requests.drop_last()).push(
                self.recover_all(requests.drop_last()).recover_outcome(requests.last()),
            )
        }
    }
}

/// Creating keeps a sound registry sound, never lowers the last identifier
/// and leaves every wallet that was there as it was. A wallet that it adds
/// gets an identifier above all that were issued before.
pub proof fn lemma_create_sound(registry: Registry, request: WalletCreateRequest)
    requires
        registry.wf(),
    ensures
        registry.create(request).wf(),
        registry.create(request).last_id == registry.last_id + if registry.create_outcome(
            request,
        ) is Success {
            1nat
        } else {
            0nat
        },
        forall|owner: Identity| #[trigger]
            registry.wallets.dom().contains(owner) ==> registry.create(
                request,
            ).wallets.dom().contains(owner) && registry.create(request).wallets[owner]
                == registry.wallets[owner],
        registry.create_outcome(request) is Success ==> registry.create(
            request,
        ).wallets[request.owner] == registry.last_id + 1,
{
    let after = registry.create(request);
    assert forall|a: Identity, b: Identity|
        after.wallets.dom().contains(a) && after.wallets.dom().contains(b) && a
            != b implies #[trigger] after.wallets[a] != #[trigger] after.wallets[b] by {
        if registry.wallets.dom().contains(a) {
            assert(registry.wallets[a] <= registry.last_id);
        }
        if registry.wallets.dom().contains(b) {
            assert(registry.wallets[b] <= registry.last_id);
        }
    }
}

/// Recovering keeps a sound registry sound, issues no identifier, and
/// changes no identifier: where it succeeds, the new owner holds the wallet
/// under the identifier that the old owner held it under, and every other
/// wallet is as it was.
pub proof fn lemma_recover_sound(registry: Registry, request: WalletRecoveryRequest)
    requires
        registry.wf(),
    ensures
        registry.recover(request).wf(),
        registry.recover(request).last_id == registry.last_id,
        registry.recover_outcome(request) is Success ==> {
            &&& !registry.recover(request).wallets.dom().contains(request.old_owner)
            &&& registry.recover(request).wallets.dom().contains(request.new_owner)
            &&& registry.recover(request).wallets[request.new_owner]
                == registry.wallets[request.old_owner]
        },
        forall|owner: Identity|
            owner != request.old_owner && owner != request.new_owner ==> (
            #[trigger] registry.recover(request).wallets.dom().contains(owner))
                == registry.wallets.dom().contains(owner),
        forall|owner: Identity|
            owner != request.old_owner && owner != request.new_owner
                && registry.wallets.dom().contains(owner) ==> #[trigger] registry.recover(
                request,
            ).wallets[owner] == registry.wallets[owner],
{
    let after = registry.recover(request);
    if registry.recover_outcome(request) is Success {
        assert forall|owner: Identity| #[trigger]
            after.wallets.dom().contains(owner) implies 1 <= after.wallets[owner]
            <= after.last_id by {
            if owner == request.new_owner {
                assert(registry.wallets.dom().contains(request.old_owner));
            } else {
                assert(registry.wallets.dom().contains(owner));
            }
        }
        assert forall|a: Identity, b: Identity|
            after.wallets.dom().contains(a) && after.wallets.dom().contains(b) && a
                != b implies #[trigger] after.wallets[a] != #[trigger] after.wallets[b] by {
            let a0 = if a == request.new_owner {
                request.old_owner
            } else {
                a
            };
            let b0 = if b == request.new_owner {
                request.old_owner
            } else {
                b
            };
            assert(registry.wallets.dom().contains(a0) && registry.wallets.dom().contains(b0));
            assert(a0 != b0);
            assert(registry.wallets[a0] != registry.wallets[b0]);
        }
    }
}

/// A batch of creations keeps a sound registry sound. It gives one outcome
/// for each request, raises the last identifier by the number of its
/// successes, and leaves every wallet that was there as it was.
pub proof fn lemma_create_all_sound(registry: Registry, requests: Seq<WalletCreateRequest>)
    requires
        registry.wf(),
    ensures
        registry.create_all(requests).wf(),
        registry.create_outcomes(requests).len() == requests.len(),
        registry.create_all(requests).last_id == registry.last_id + successes(
            registry.create_outcomes(requests),
        ),
        forall|owner: Identity| #[trigger]
            registry.wallets.dom().contains(owner) ==> registry.create_all(
                requests,
            ).wallets.dom().contains(owner) && registry.create_all(requests).wallets[owner]
                == registry.wallets[owner],
    decreases requests.len(),
{
    if requests.len() > 0 {
        let before = registry.create_all(requests.drop_last());
        lemma_create_all_sound(registry, requests.drop_last());
        lemma_create_sound(before, requests.last());
        assert(registry.create_outcomes(requests).drop_last() =~= registry.create_outcomes(
            requests.drop_last(),
        ));
        assert forall|owner: Identity| #[trigger]
            registry.wallets.dom().contains(owner) implies registry.create_all(
            requests,
        ).wallets.dom().contains(owner) && registry.create_all(requests).wallets[owner]
            == registry.wallets[owner] by {
            assert(before.wallets.dom().contains(owner));
        }
    }
}

/// The last identifier after the first `k` creations of a batch is no larger
/// than after the whole batch.
pub proof fn lemma_create_all_grows(
    registry: Registry,
    requests: Seq<WalletCreateRequest>,
    k: int,
)
    requires
        registry.wf(),
        0 <= k <= requests.len(),
    ensures
        registry.create_all(requests.take(k)).last_id <= registry.create_all(requests).last_id,
    decreases requests.len() - k,
{
    if k == requests.len() {
        assert(requests.take(k) =~= requests);
    } else {
        lemma_create_all_grows(registry, requests, k + 1);
        assert(requests.take(k + 1).drop_last() =~= requests.take(k));
        lemma_create_all_sound(registry, requests.take(k));
        lemma_create_sound(registry.create_all(requests.take(k)), requests[k]);
    }
}

/// A batch of recoveries keeps a sound registry sound, gives one outcome for
/// each request and issues no identifier.
pub proof fn lemma_recover_all_sound(registry: Registry, requests: Seq<WalletRecoveryRequest>)
    requires
        registry.wf(),
    ensures
        registry.recover_all(requests).wf(),
        registry.recover_outcomes(requests).len() == requests.len(),
        registry.recover_all(requests).last_id == registry.last_id,
    decreases requests.len(),
{
    if requests.len() > 0 {
        lemma_recover_all_sound(registry, requests.drop_last());
        lemma_recover_sound(registry.recover_all(requests.drop_last()), requests.last());
    }
}

/// A wallet that a batch of creations adds keeps the identifier it was
/// created with: the last identifier from before the batch plus the number
/// of successes up to and including its own request.
pub proof fn lemma_created_id(registry: Registry, requests: Seq<WalletCreateRequest>, i: int)
    requires
        registry.wf(),
        0 <= i < requests.len(),
        registry.create_outcomes(requests)[i] is Success,
    ensures
        registry.create_all(requests).wallets.dom().contains(requests[i].owner),
        registry.create_all(requests).wallets[requests[i].owner] == registry.last_id + successes(
            registry.create_outcomes(requests).take(i + 1),
        ),
    decreases requests.len(),
{
    let outcomes = registry.create_outcomes(requests);
    let before = registry.create_all(requests.drop_last());
    lemma_create_all_sound(registry, requests);
    lemma_create_all_sound(registry, requests.drop_last());
    lemma_create_sound(before, requests.last());
    if i == requests.len() - 1 {
        assert(outcomes.take(i + 1) =~= outcomes);
        assert(outcomes.drop_last() =~= registry.create_outcomes(requests.drop_last()));
    } else {
        assert(outcomes.take(i + 1) =~= registry.create_outcomes(requests.drop_last()).take(
            i + 1,
        ));
        lemma_created_id(registry, requests.drop_last(), i);
    }
}

/// The number of successes among the first `a` outcomes is no larger than
/// among the first `b`, and smaller when a success lies between.
pub proof fn lemma_successes_grow<O: Outcome>(results: Seq<O>, a: int, b: int)
    requires
        0 <= a <= b <= results.len(),
    ensures
        successes(results.take(a)) <= successes(results.take(b)),
        a < b && results[b - 1].succeeded() ==> successes(results.take(a)) < successes(
            results.take(b),
        ),
    decreases b - a,
{
    if a < b {
        assert(results.take(b).drop_last() =~= results.take(b - 1));
        lemma_successes_grow(results, a, b - 1);
    }
}

/// The wallets that one batch of creations adds get identifiers above every
/// identifier issued before the batch, and a later request gets a larger one
/// than an earlier request.
pub proof fn lemma_created_ids_increase(
    registry: Registry,
    requests: Seq<WalletCreateRequest>,
    i: int,
    j: int,
)
    requires
        registry.wf(),
        0 <= i < j < requests.len(),
        registry.create_outcomes(requests)[i] is Success,
        registry.create_outcomes(requests)[j] is Success,
    ensures
        registry.last_id < registry.create_all(requests).wallets[requests[i].owner]
            < registry.create_all(requests).wallets[requests[j].owner],
{
    let outcomes = registry.create_outcomes(requests);
    lemma_create_all_sound(registry, requests);
    lemma_created_id(registry, requests, i);
    lemma_created_id(registry, requests, j);
    lemma_successes_grow(outcomes, 0, i + 1);
    lemma_successes_grow(outcomes, i + 1, j + 1);
}

/// A wallet that a batch of creations adds gets an identifier above that of
/// every wallet that was there before the batch, whoever owns it by now.
pub proof fn lemma_created_id_is_new(
    registry: Registry,
    requests: Seq<WalletCreateRequest>,
    i: int,
    owner: Identity,
)
    requires
        registry.wf(),
        0 <= i < requests.len(),
        registry.create_outcomes(requests)[i] is Success,
        registry.wallets.dom().contains(owner),
    ensures
        registry.wallets[owner] < registry.create_all(requests).wallets[requests[i].owner],
        registry.create_all(requests).wallets[owner] == registry.wallets[owner],
{
    lemma_create_all_sound(registry, requests);
    lemma_created_id(registry, requests, i);
    lemma_successes_grow(registry.create_outcomes(requests), 0, i + 1);
}

/// A recovery changes no identifier: the identifiers in use after it are
/// those in use before it.
pub proof fn lemma_recover_keeps_ids(registry: Registry, request: WalletRecoveryRequest)
    requires
        registry.wf(),
    ensures
        registry.recover(request).wallets.values() == registry.wallets.values(),
{
    let before = registry.wallets;
    let after = registry.recover(request).wallets;
    lemma_recover_sound(registry, request);
    if registry.recover_outcome(request) is Success {
        assert forall|id: nat| before.contains_value(id) implies after.contains_value(id) by {
            let owner = choose|owner: Identity| #[trigger]
                before.dom().contains(owner) && before[owner] == id;
            if owner == request.old_owner {
                assert(after.dom().contains(request.new_owner));
            } else {
                assert(after.dom().contains(owner));
            }
        }
        assert forall|id: nat| after.contains_value(id) implies before.contains_value(id) by {
            let owner = choose|owner: Identity| #[trigger]
                after.dom().contains(owner) && after[owner] == id;
            if owner == request.new_owner {
                assert(before.dom().contains(request.old_owner));
            } else {
                assert(before.dom().contains(owner));
            }
        }
    }
    assert(after.values() =~= before.values());
}

/// A batch of recoveries changes no identifier: the identifiers in use after
/// it are those in use before it.
pub proof fn lemma_recover_all_keeps_ids(
    registry: Registry,
    requests: Seq<WalletRecoveryRequest>,
)
    requires
        registry.wf(),
    ensures
        registry.recover_all(requests).wallets.values() == registry.wallets.values(),
    decreases requests.len(),
{
    if requests.len() > 0 {
        lemma_recover_all_sound(registry, requests.drop_last());
        lemma_recover_all_keeps_ids(registry, requests.drop_last());
        lemma_recover_keeps_ids(registry.recover_all(requests.drop_last()), requests.last());
    }
}

} // verus!
