//! The registry of an engine: its wallets together with the allocator of
//! their identifiers, and the handlers that settle one creation and one
//! recovery.

use vstd::prelude::*;
use crate::error::EngineError;
use crate::identity::Identity;
use crate::sequence::SequenceAllocator;
use crate::wallet::{
    lemma_create_sound, lemma_recover_sound, Registry, WalletCreateRequest, WalletCreateResult,
    WalletRecoveryRequest, WalletRecoveryResult, INVALID_DESTINATION, SOURCE_NOT_FOUND,
    WALLET_EXISTS,
};
use crate::wallet_store::{
    distinct_owners, lemma_wallet_found, place_of, wallets_by_owner, Wallet, WalletStore,
};

verus! {

/// Every identifier in `wallets` is at least 1 and at most `last_id`.
pub open spec fn ids_issued(wallets: Seq<Wallet>, last_id: u64) -> bool {
    forall|i: int| 0 <= i < wallets.len() ==> 1 <= (#[trigger] wallets[i]).id <= last_id
}

/// No identifier occurs twice in `wallets`.
pub open spec fn distinct_ids(wallets: Seq<Wallet>) -> bool {
    forall|i: int, j: int|
        0 <= i < j < wallets.len() ==> (#[trigger] wallets[i]).id != (#[trigger] wallets[j]).id
}

/// Wallets with distinct owners and distinct, issued identifiers make a
/// sound registry.
pub proof fn lemma_wallets_make_registry(wallets: Seq<Wallet>, last_id: u64)
    requires
        distinct_owners(wallets),
        distinct_ids(wallets),
        ids_issued(wallets, last_id),
    ensures
        (Registry { wallets: wallets_by_owner(wallets), last_id: last_id as nat }).wf(),
{
    let registry = Registry { wallets: wallets_by_owner(wallets), last_id: last_id as nat };
    assert forall|owner: Identity| #[trigger]
        registry.wallets.dom().contains(owner) implies 1 <= registry.wallets[owner]
        <= registry.last_id by {
        let p = place_of(wallets, owner);
        lemma_wallet_found(wallets, p);
    }
    assert forall|a: Identity, b: Identity|
        registry.wallets.dom().contains(a) && registry.wallets.dom().contains(b) && a
            != b implies #[trigger] registry.wallets[a] != #[trigger] registry.wallets[b] by {
        let p = place_of(wallets, a);
        let q = place_of(wallets, b);
        lemma_wallet_found(wallets, p);
        lemma_wallet_found(wallets, q);
        if p < q {
            assert(wallets[p].id != wallets[q].id);
        } else if q < p {
            assert(wallets[q].id != wallets[p].id);
        }
    }
}

/// The wallets of an engine and the allocator of their identifiers.
#[derive(Debug)]
pub struct WalletRegistry {
    store: WalletStore,
    sequence: SequenceAllocator,
}

impl View for WalletRegistry {
    type V = Registry;

    closed spec fn view(&self) -> Registry {
        Registry { wallets: self.store@, last_id: self.sequence@ }
    }
}

impl WalletRegistry {
    /// The store keeps at most one wallet for each owner.
    pub closed spec fn stored_soundly(&self) -> bool {
        self.store.wf()
    }

    /// The registry is sound: every identifier in use was issued, no two
    /// wallets share one, and no owner has two wallets.
    pub open spec fn wf(&self) -> bool {
        &&& self.stored_soundly()
        &&& self@.wf()
        &&& self@.last_id <= u64::MAX
    }

    /// A registry without wallets that has issued no identifier.
    pub fn new() -> (registry: WalletRegistry)
        ensures
            registry.wf(),
            registry@ == (Registry { wallets: Map::empty(), last_id: 0 }),
    {
        WalletRegistry { store: WalletStore::new(), sequence: SequenceAllocator::new() }
    }

    /// A registry of `wallets` that issued `last_id` last.
    ///
    /// Returns `None` exactly when the wallets cannot have come from a
    /// registry: an owner or an identifier occurs twice, or an identifier is
    /// 0 or above `last_id`.
    pub fn restore(last_id: u64, wallets: &Vec<Wallet>) -> (restored: Option<WalletRegistry>)
        ensures
            restored is Some <==> distinct_owners(wallets@) && distinct_ids(wallets@)
                && ids_issued(wallets@, last_id),
            restored is Some ==> restored->0.wf() && restored->0@ == (Registry {
                wallets: wallets_by_owner(wallets@),
                last_id: last_id as nat,
            }),
    {
        let mut i: usize = 0;
        while i < wallets.len()
            invariant
                0 <= i <= wallets@.len(),
                ids_issued(wallets@.take(i as int), last_id),
                distinct_ids(wallets@.take(i as int)),
            decreases wallets@.len() - i,
        {
            let id = wallets[i].id;
            if id == 0 || id > last_id {
                return None;
            }
            let mut j: usize = 0;
            while j < i
                invariant
                    0 <= j <= i < wallets@.len(),
                    id == wallets@[i as int].id,
                    forall|k: int| 0 <= k < j ==> (#[trigger] wallets@[k]).id != id,
                decreases i - j,
            {
                if wallets[j].id == id {
                    return None;
                }
                j = j + 1;
            }
            assert forall|a: int, b: int| 0 <= a < b < i + 1 implies (#[trigger] wallets@.take(
                i + 1,
            )[a]).id != (#[trigger] wallets@.take(i + 1)[b]).id by {
                if b < i {
                    assert(wallets@.take(i as int)[a].id != wallets@.take(i as int)[b].id);
                }
            }
            assert forall|a: int| 0 <= a < i + 1 implies 1 <= (#[trigger] wallets@.take(
                i + 1,
            )[a]).id <= last_id by {
                if a < i {
                    assert(1 <= wallets@.take(i as int)[a].id <= last_id);
                }
            }
            i = i + 1;
        }
        assert(wallets@.take(wallets@.len() as int) =~= wallets@);
        match WalletStore::from_wallets(wallets) {
            None => None,
            Some(store) => {
                proof {
                    lemma_wallets_make_registry(wallets@, last_id);
                }
                Some(WalletRegistry { store, sequence: SequenceAllocator::restore(last_id) })
            },
        }
    }

    /// The identifier issued last, or 0 when none was issued.
    pub fn last_id(&self) -> (last: u64)
        ensures
            last == self@.last_id,
    {
        self.sequence.last()
    }

    /// The wallet of `owner`, or `None` when it has none.
    pub fn get_wallet(&self, owner: &Identity) -> (found: Option<Wallet>)
        requires
            self.wf(),
        ensures
            found is Some <==> self@.wallets.dom().contains(*owner),
            found is Some ==> found->0.owner == *owner && found->0.id == self@.wallets[*owner],
    {
        self.store.get(owner)
    }

    /// Handles one creation.
    ///
    /// An owner who has a wallet gets no second one: the request fails with
    /// `WALLET_EXISTS`. Any other owner gets a wallet under the next
    /// identifier. When no identifier is left, the call fails with
    /// `Overflow` and the registry is unchanged.
    pub fn create(&mut self, request: &WalletCreateRequest) -> (r: Result<
        WalletCreateResult,
        EngineError,
    >)
        requires
            old(self).wf(),
        ensures
            final(self).wf(),
            old(self)@.create(*request).last_id <= u64::MAX ==> r == Ok::<
                WalletCreateResult,
                EngineError,
            >(old(self)@.create_outcome(*request)) && final(self)@ == old(self)@.create(*request),
            old(self)@.create(*request).last_id > u64::MAX ==> r == Err::<
                WalletCreateResult,
                EngineError,
            >(EngineError::Overflow) && *final(self) == *old(self),
    {
        proof {
            lemma_create_sound(self@, *request);
        }
        if self.store.contains(&request.owner) {
            return Ok(WalletCreateResult::Failure(request.owner, WALLET_EXISTS));
        }
        let mut sequence = self.sequence;
        match sequence.next_id() {
            Err(e) => Err(e),
            Ok(id) => {
                self.sequence = sequence;
                self.store.insert(Wallet { owner: request.owner, id });
                Ok(WalletCreateResult::Success(request.owner))
            },
        }
    }

    /// Handles one recovery.
    ///
    /// The request fails with `SOURCE_NOT_FOUND` when the old owner has no
    /// wallet, and with `INVALID_DESTINATION` when the new owner is the old
    /// one or already has a wallet. Otherwise the wallet passes to the new
    /// owner and keeps its identifier.
    pub fn recover(&mut self, request: &WalletRecoveryRequest) -> (outcome: WalletRecoveryResult)
        requires
            old(self).wf(),
        ensures
            final(self).wf(),
            outcome == old(self)@.recover_outcome(*request),
            final(self)@ == old(self)@.recover(*request),
    {
        proof {
            lemma_recover_sound(self@, *request);
        }
        if !self.store.contains(&request.old_owner) {
            return WalletRecoveryResult::Failure(
                request.old_owner,
                request.new_owner,
                SOURCE_NOT_FOUND,
            );
        }
        if request.new_owner.same_as(&request.old_owner) || self.store.contains(
            &request.new_owner,
        ) {
            return WalletRecoveryResult::Failure(
                request.old_owner,
                request.new_owner,
                INVALID_DESTINATION,
            );
        }
        self.store.rekey(&request.old_owner, request.new_owner);
        WalletRecoveryResult::Success(request.old_owner, request.new_owner)
    }

    /// A second registry in the same state.
    pub fn duplicate(&self) -> (copy: WalletRegistry)
        ensures
            copy@ == self@,
            copy.wf() == self.wf(),
    {
        WalletRegistry { store: self.store.duplicate(), sequence: self.sequence }
    }
}

} // verus!
