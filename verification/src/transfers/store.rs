//! The log of one wallet: events in the order in which they were appended.

use sn_data_types::{PublicKey, ReplicaEvent};
use vstd::prelude::*;

verus! {

/// The events of one wallet. Nothing is ever taken out of it.
pub struct TransferStore {
    id: PublicKey,
    events: Vec<ReplicaEvent>,
}

impl TransferStore {
    /// The wallet whose events are kept.
    pub closed spec fn wallet(&self) -> PublicKey {
        self.id
    }

    /// The events, oldest first.
    pub closed spec fn log(&self) -> Seq<ReplicaEvent> {
        self.events@
    }

    /// The empty log of a wallet.
    pub fn new(id: PublicKey) -> (store: TransferStore)
        ensures
            store.wallet() == id,
            store.log() == Seq::<ReplicaEvent>::empty(),
    {
        TransferStore { id, events: Vec::new() }
    }

    pub fn id(&self) -> (id: PublicKey)
        ensures
            id == self.wallet(),
    {
        self.id
    }

    /// How many events are kept.
    pub fn len(&self) -> (count: usize)
        ensures
            count == self.log().len(),
    {
        self.events.len()
    }

    /// The event at `i`, counted from the oldest.
    pub fn event(&self, i: usize) -> (event: &ReplicaEvent)
        requires
            i < self.log().len(),
        ensures
            *event == self.log()[i as int],
    {
        &self.events[i]
    }

    /// All events in the order in which they were appended.
    pub fn get_all(&self) -> (events: Vec<ReplicaEvent>)
        ensures
            events@ == self.log(),
    {
        let events = self.events.clone();
        assert(events@ =~= self.events@);
        events
    }

    /// Appends an event.
    pub fn try_insert(&mut self, event: ReplicaEvent)
        ensures
            final(self).wallet() == old(self).wallet(),
            final(self).log() == old(self).log().push(event),
    {
        self.events.push(event);
    }
}

/// The event at `j` in the log of the store at `i`.
pub open spec fn event_at(stores: Seq<TransferStore>, i: int, j: int) -> ReplicaEvent {
    stores[i].log()[j]
}

/// No log holds an event that tells of a group of replicas.
pub open spec fn transfers_only(stores: Seq<TransferStore>) -> bool {
    forall|i: int, j: int|
        0 <= i < stores.len() && 0 <= j < stores[i].log().len() ==> !(#[trigger] event_at(
            stores,
            i,
            j,
        ) is KnownGroupAdded)
}

/// The wallet of the store at `i`.
pub open spec fn wallet_at(stores: Seq<TransferStore>, i: int) -> PublicKey {
    stores[i].wallet()
}

/// No two stores are of one wallet.
pub open spec fn one_store_each(stores: Seq<TransferStore>) -> bool {
    forall|i: int, j: int|
        0 <= i < j < stores.len() ==> #[trigger] wallet_at(stores, i) != #[trigger] wallet_at(
            stores,
            j,
        )
}

/// Some store is of the wallet `id`.
pub open spec fn kept(stores: Seq<TransferStore>, id: PublicKey) -> bool {
    exists|i: int| 0 <= i < stores.len() && #[trigger] wallet_at(stores, i) == id
}

/// The place of the store of the wallet `id`.
pub open spec fn store_of(stores: Seq<TransferStore>, id: PublicKey) -> int {
    choose|i: int| 0 <= i < stores.len() && #[trigger] wallet_at(stores, i) == id
}

/// The logs of the stores, by wallet.
pub open spec fn as_logs(stores: Seq<TransferStore>) -> Map<PublicKey, Seq<ReplicaEvent>> {
    Map::new(|id: PublicKey| kept(stores, id), |id: PublicKey| stores[store_of(stores, id)].log())
}

/// The wallets of the stores, in the order of the stores.
pub open spec fn wallets_of(stores: Seq<TransferStore>) -> Seq<PublicKey> {
    Seq::new(stores.len(), |i: int| wallet_at(stores, i))
}

/// Where there is one store for each wallet, the store at `i` holds what the
/// logs hold for its wallet.
pub proof fn store_is_mapped(stores: Seq<TransferStore>, i: int)
    requires
        one_store_each(stores),
        0 <= i < stores.len(),
    ensures
        as_logs(stores).dom().contains(wallet_at(stores, i)),
        as_logs(stores)[wallet_at(stores, i)] == stores[i].log(),
{
    let id = wallet_at(stores, i);
    assert(kept(stores, id));
    let j = store_of(stores, id);
    assert(wallet_at(stores, j) == id);
    if i < j {
        assert(wallet_at(stores, i) != wallet_at(stores, j));
    }
    if j < i {
        assert(wallet_at(stores, j) != wallet_at(stores, i));
    }
}

/// A store put in place of another of the same wallet changes the log of
/// that wallet and nothing else.
pub proof fn store_replaced(
    before: Seq<TransferStore>,
    after: Seq<TransferStore>,
    i: int,
    store: TransferStore,
)
    requires
        one_store_each(before),
        0 <= i < before.len(),
        store.wallet() == wallet_at(before, i),
        after == before.update(i, store),
    ensures
        one_store_each(after),
        wallets_of(after) == wallets_of(before),
        as_logs(after) == as_logs(before).insert(store.wallet(), store.log()),
{
    assert forall|a: int| 0 <= a < after.len() implies wallet_at(after, a) == wallet_at(
        before,
        a,
    ) by {}
    assert forall|a: int, b: int| 0 <= a < b < after.len() implies #[trigger] wallet_at(after, a)
        != #[trigger] wallet_at(after, b) by {
        assert(wallet_at(after, a) == wallet_at(before, a));
        assert(wallet_at(after, b) == wallet_at(before, b));
    }
    assert(wallets_of(after) =~= wallets_of(before));
    let target = as_logs(before).insert(store.wallet(), store.log());
    assert forall|id: PublicKey| as_logs(after).dom().contains(id) <==> target.dom().contains(
        id,
    ) by {
        if kept(after, id) {
            let j = store_of(after, id);
            assert(wallet_at(before, j) == wallet_at(after, j));
        }
        if kept(before, id) {
            let j = store_of(before, id);
            assert(wallet_at(after, j) == wallet_at(before, j));
        }
        assert(wallet_at(after, i) == store.wallet());
    }
    assert forall|id: PublicKey| as_logs(after).dom().contains(id) implies as_logs(after)[id]
        == target[id] by {
        let j = store_of(after, id);
        store_is_mapped(after, j);
        if j != i {
            assert(wallet_at(before, j) == id);
            store_is_mapped(before, j);
            if j < i {
                assert(wallet_at(before, j) != wallet_at(before, i));
            } else {
                assert(wallet_at(before, i) != wallet_at(before, j));
            }
        }
    }
    assert(as_logs(after) =~= target);
}

/// A store added for a wallet that had none adds the log of that wallet and
/// changes nothing else.
pub proof fn store_added(before: Seq<TransferStore>, after: Seq<TransferStore>, store: TransferStore)
    requires
        one_store_each(before),
        !kept(before, store.wallet()),
        after == before.push(store),
    ensures
        one_store_each(after),
        wallets_of(after) == wallets_of(before).push(store.wallet()),
        as_logs(after) == as_logs(before).insert(store.wallet(), store.log()),
{
    let n = before.len() as int;
    assert forall|a: int, b: int| 0 <= a < b < after.len() implies #[trigger] wallet_at(after, a)
        != #[trigger] wallet_at(after, b) by {
        assert(wallet_at(after, a) == wallet_at(before, a));
        if b < n {
            assert(wallet_at(after, b) == wallet_at(before, b));
        }
    }
    assert(wallets_of(after) =~= wallets_of(before).push(store.wallet()));
    let target = as_logs(before).insert(store.wallet(), store.log());
    assert(wallet_at(after, n) == store.wallet());
    assert forall|id: PublicKey| as_logs(after).dom().contains(id) <==> target.dom().contains(
        id,
    ) by {
        if kept(after, id) {
            let j = store_of(after, id);
            if j < n {
                assert(wallet_at(before, j) == id);
            }
        }
        if kept(before, id) {
            let j = store_of(before, id);
            assert(wallet_at(after, j) == id);
        }
    }
    assert forall|id: PublicKey| as_logs(after).dom().contains(id) implies as_logs(after)[id]
        == target[id] by {
        let j = store_of(after, id);
        store_is_mapped(after, j);
        if j < n {
            assert(wallet_at(before, j) == id);
            store_is_mapped(before, j);
        }
    }
    assert(as_logs(after) =~= target);
}

} // verus!
