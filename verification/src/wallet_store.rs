//! Wallets, and the store that keeps them by owner.

use vstd::prelude::*;
use crate::identity::Identity;

verus! {

/// A wallet: its owner and the identifier it was created with.
#[derive(Clone, Copy, Debug, PartialEq, Eq, Structural)]
pub struct Wallet {
    pub owner: Identity,
    pub id: u64,
}

/// No owner occurs twice in `wallets`.
pub open spec fn distinct_owners(wallets: Seq<Wallet>) -> bool {
    forall|i: int, j: int|
        0 <= i < j < wallets.len() ==> (#[trigger] wallets[i]).owner != (
        #[trigger] wallets[j]).owner
}

/// Whether `wallets` holds a wallet of `owner`.
pub open spec fn has_owner(wallets: Seq<Wallet>, owner: Identity) -> bool {
    exists|i: int| 0 <= i < wallets.len() && (#[trigger] wallets[i]).owner == owner
}

/// The place of a wallet of `owner` in `wallets`, where there is one.
pub open spec fn place_of(wallets: Seq<Wallet>, owner: Identity) -> int {
    choose|i: int| 0 <= i < wallets.len() && (#[trigger] wallets[i]).owner == owner
}

/// The wallets of `wallets` as a map from each owner to the identifier of its
/// wallet.
pub open spec fn wallets_by_owner(wallets: Seq<Wallet>) -> Map<Identity, nat> {
    Map::new(
        |owner: Identity| has_owner(wallets, owner),
        |owner: Identity| wallets[place_of(wallets, owner)].id as nat,
    )
}

/// Among wallets with distinct owners, each wallet is the one that the map
/// gives for its owner.
pub proof fn lemma_wallet_found(wallets: Seq<Wallet>, i: int)
    requires
        distinct_owners(wallets),
        0 <= i < wallets.len(),
    ensures
        wallets_by_owner(wallets).dom().contains(wallets[i].owner),
        wallets_by_owner(wallets)[wallets[i].owner] == wallets[i].id,
        place_of(wallets, wallets[i].owner) == i,
{
    let owner = wallets[i].owner;
    assert(has_owner(wallets, owner));
    let p = place_of(wallets, owner);
    assert(0 <= p < wallets.len() && wallets[p].owner == owner);
    if p < i {
        assert(wallets[p].owner != wallets[i].owner);
    } else if i < p {
        assert(wallets[i].owner != wallets[p].owner);
    }
}

/// A wallet of a new owner, put at the end, adds one entry to the map.
pub proof fn lemma_push_inserts(wallets: Seq<Wallet>, wallet: Wallet)
    requires
        distinct_owners(wallets),
        !has_owner(wallets, wallet.owner),
    ensures
        distinct_owners(wallets.push(wallet)),
        wallets_by_owner(wallets.push(wallet)) == wallets_by_owner(wallets).insert(
            wallet.owner,
            wallet.id as nat,
        ),
{
    let after = wallets.push(wallet);
    assert forall|i: int, j: int| 0 <= i < j < after.len() implies (#[trigger] after[i]).owner != (
    #[trigger] after[j]).owner by {
        if j == wallets.len() {
            assert(wallets[i].owner != wallet.owner);
        } else {
            assert(wallets[i].owner != wallets[j].owner);
        }
    }
    let expected = wallets_by_owner(wallets).insert(wallet.owner, wallet.id as nat);
    assert forall|owner: Identity| #[trigger]
        wallets_by_owner(after).dom().contains(owner) == expected.dom().contains(owner) by {
        if has_owner(after, owner) {
            let p = place_of(after, owner);
            if p < wallets.len() {
                assert(wallets[p].owner == owner);
            }
        }
        if has_owner(wallets, owner) {
            let p = place_of(wallets, owner);
            assert(after[p].owner == owner);
        }
        if owner == wallet.owner {
            assert(after[wallets.len() as int].owner == owner);
        }
    }
    assert forall|owner: Identity| #[trigger]
        wallets_by_owner(after).dom().contains(owner) implies wallets_by_owner(after)[owner]
        == expected[owner] by {
        let p = place_of(after, owner);
        lemma_wallet_found(after, p);
        if p < wallets.len() {
            lemma_wallet_found(wallets, p);
        }
    }
    assert(wallets_by_owner(after) =~= expected);
}

/// Giving the wallet at place `i` to `new_owner`, who has none, moves its
/// entry in the map from the old owner to the new one.
pub proof fn lemma_update_rekeys(wallets: Seq<Wallet>, i: int, new_owner: Identity)
    requires
        distinct_owners(wallets),
        0 <= i < wallets.len(),
        !has_owner(wallets, new_owner),
    ensures
        distinct_owners(wallets.update(i, Wallet { owner: new_owner, id: wallets[i].id })),
        wallets_by_owner(wallets.update(i, Wallet { owner: new_owner, id: wallets[i].id }))
            == wallets_by_owner(wallets).remove(wallets[i].owner).insert(
            new_owner,
            wallets[i].id as nat,
        ),
{
    let old_owner = wallets[i].owner;
    let after = wallets.update(i, Wallet { owner: new_owner, id: wallets[i].id });
    assert forall|a: int, b: int| 0 <= a < b < after.len() implies (#[trigger] after[a]).owner != (
    #[trigger] after[b]).owner by {
        if a == i {
            assert(wallets[b].owner != new_owner);
        } else if b == i {
            assert(wallets[a].owner != new_owner);
        } else {
            assert(wallets[a].owner != wallets[b].owner);
        }
    }
    let expected = wallets_by_owner(wallets).remove(old_owner).insert(
        new_owner,
        wallets[i].id as nat,
    );
    assert forall|owner: Identity| #[trigger]
        wallets_by_owner(after).dom().contains(owner) == expected.dom().contains(owner) by {
        if has_owner(after, owner) {
            let p = place_of(after, owner);
            if p != i {
                assert(wallets[p].owner == owner);
                lemma_wallet_found(wallets, p);
                lemma_wallet_found(wallets, i);
            }
        }
        if has_owner(wallets, owner) && owner != old_owner {
            let p = place_of(wallets, owner);
            assert(after[p].owner == owner);
        }
        if owner == new_owner {
            assert(after[i].owner == owner);
        }
        if owner == old_owner && owner != new_owner && has_owner(after, owner) {
            let p = place_of(after, owner);
            assert(wallets[p].owner == owner);
            lemma_wallet_found(wallets, p);
            lemma_wallet_found(wallets, i);
        }
    }
    assert forall|owner: Identity| #[trigger]
        wallets_by_owner(after).dom().contains(owner) implies wallets_by_owner(after)[owner]
        == expected[owner] by {
        let p = place_of(after, owner);
        lemma_wallet_found(after, p);
        if p != i {
            lemma_wallet_found(wallets, p);
        }
    }
    assert(wallets_by_owner(after) =~= expected);
}

/// The wallets of an engine, found by owner.
///
/// No two wallets in a store have the same owner.
#[derive(Debug)]
pub struct WalletStore {
    entries: Vec<Wallet>,
}

impl View for WalletStore {
    type V = Map<Identity, nat>;

    /// The identifier of each owner's wallet.
    closed spec fn view(&self) -> Map<Identity, nat> {
        wallets_by_owner(self.entries@)
    }
}

impl WalletStore {
    /// No owner has two wallets.
    pub closed spec fn wf(&self) -> bool {
        distinct_owners(self.entries@)
    }

    /// An empty store.
    pub fn new() -> (store: WalletStore)
        ensures
            store.wf(),
            store@ == Map::<Identity, nat>::empty(),
    {
        let store = WalletStore { entries: Vec::new() };
        assert(store@ =~= Map::<Identity, nat>::empty());
        store
    }

    /// The place of the wallet of `owner`, if there is one.
    fn find(&self, owner: &Identity) -> (place: Option<usize>)
        ensures
            match place {
                Some(i) => i < self.entries@.len() && self.entries@[i as int].owner == *owner,
                None => !has_owner(self.entries@, *owner),
            },
    {
        let mut i: usize = 0;
        while i < self.entries.len()
            invariant
                0 <= i <= self.entries@.len(),
                forall|j: int| 0 <= j < i ==> (#[trigger] self.entries@[j]).owner != *owner,
            decreases self.entries@.len() - i,
        {
            if self.entries[i].owner.same_as(owner) {
                return Some(i);
            }
            i = i + 1;
        }
        None
    }

    /// Whether `owner` has a wallet.
    pub fn contains(&self, owner: &Identity) -> (yes: bool)
        ensures
            yes == self@.dom().contains(*owner),
    {
        self.find(owner).is_some()
    }

    /// The wallet of `owner`, or `None` when it has none.
    pub fn get(&self, owner: &Identity) -> (found: Option<Wallet>)
        requires
            self.wf(),
        ensures
            found is Some <==> self@.dom().contains(*owner),
            found is Some ==> found->0.owner == *owner && found->0.id == self@[*owner],
    {
        match self.find(owner) {
            Some(i) => {
                proof {
                    lemma_wallet_found(self.entries@, i as int);
                }
                Some(self.entries[i])
            },
            None => None,
        }
    }

    /// Adds the wallet of an owner who has none.
    pub(crate) fn insert(&mut self, wallet: Wallet)
        requires
            old(self).wf(),
            !old(self)@.dom().contains(wallet.owner),
        ensures
            final(self).wf(),
            final(self)@ == old(self)@.insert(wallet.owner, wallet.id as nat),
    {
        proof {
            lemma_push_inserts(self.entries@, wallet);
        }
        self.entries.push(wallet);
    }

    /// Gives the wallet of `old_owner` to `new_owner`, who has none. The
    /// wallet keeps its identifier.
    pub(crate) fn rekey(&mut self, old_owner: &Identity, new_owner: Identity)
        requires
            old(self).wf(),
            old(self)@.dom().contains(*old_owner),
            !old(self)@.dom().contains(new_owner),
        ensures
            final(self).wf(),
            final(self)@ == old(self)@.remove(*old_owner).insert(
                new_owner,
                old(self)@[*old_owner],
            ),
    {
        match self.find(old_owner) {
            Some(i) => {
                proof {
                    lemma_wallet_found(self.entries@, i as int);
                    lemma_update_rekeys(self.entries@, i as int, new_owner);
                }
                let id = self.entries[i].id;
                self.entries.set(i, Wallet { owner: new_owner, id });
            },
            None => {},
        }
    }

    /// A second store with the same wallets.
    pub fn duplicate(&self) -> (copy: WalletStore)
        ensures
            copy@ == self@,
            copy.wf() == self.wf(),
    {
        let mut entries: Vec<Wallet> = Vec::new();
        let mut i: usize = 0;
        while i < self.entries.len()
            invariant
                0 <= i <= self.entries@.len(),
                entries@ == self.entries@.take(i as int),
            decreases self.entries@.len() - i,
        {
            entries.push(self.entries[i]);
            assert(self.entries@.take(i + 1) =~= self.entries@.take(i as int).push(
                self.entries@[i as int],
            ));
            i = i + 1;
        }
        assert(self.entries@.take(self.entries@.len() as int) =~= self.entries@);
        WalletStore { entries }
    }

    /// A store of `wallets`, or `None` when an owner occurs twice in them.
    pub fn from_wallets(wallets: &Vec<Wallet>) -> (made: Option<WalletStore>)
        ensures
            made is Some <==> distinct_owners(wallets@),
            made is Some ==> made->0.wf() && made->0@ == wallets_by_owner(wallets@),
    {
        let mut store = WalletStore { entries: Vec::new() };
        let mut i: usize = 0;
        while i < wallets.len()
            invariant
                0 <= i <= wallets@.len(),
                store.wf(),
                store.entries@ == wallets@.take(i as int),
            decreases wallets@.len() - i,
        {
            let wallet = wallets[i];
            match store.find(&wallet.owner) {
                Some(j) => {
                    assert(wallets@[j as int].owner == wallets@[i as int].owner);
                    return None;
                },
                None => {},
            }
            proof {
                lemma_push_inserts(store.entries@, wallet);
            }
            store.entries.push(wallet);
            assert(wallets@.take(i + 1) =~= wallets@.take(i as int).push(wallet));
            i = i + 1;
        }
        assert(wallets@.take(wallets@.len() as int) =~= wallets@);
        Some(store)
    }
}

} // verus!
