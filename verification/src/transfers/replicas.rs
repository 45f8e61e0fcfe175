//! One replica of a section: it validates debits, registers agreed
//! transfers, takes agreed credits, and keeps the log of every wallet it
//! has custody of.

use crate::transfers::data_types::nano;
use crate::transfers::store::{
    as_logs, event_at, transfers_only, one_store_each, store_added, store_is_mapped, store_replaced, wallet_at, wallets_of,
    TransferStore,
};
use crate::transfers::wallet::{
    balance_of, credit_signature, genesis_check, get_genesis, has_key, insufficient_balance,
    key_set_has_key, load_wallet, peers_of, propagation, same_agreement,
    registration, replay, same_key, section_key, section_key_of, sign_credit_proof,
    credits_in, following, groups_in, held_credits, keys_at_hand, last_validated, net, next_debit, out_of_order,
    pending_debit, registered_count, sign_transfer, test_validation, transfer_signatures,
    validation, wallet_balance, wallet_genesis, wallet_receive_propagated, wallet_register, wallet_test_validate,
    wallet_validate,
};
use sn_data_types::{
    CreditAgreementProof, Error as NdError, Money, PublicKey, ReplicaEvent, SignatureShare,
    SignedTransfer, TransferAgreementProof, TransferPropagated, TransferRegistered,
    TransferValidated,
};
use sn_transfers::ReplicaSigning;
use threshold_crypto::{PublicKeySet, PublicKeyShare};
use vstd::prelude::*;

verus! {

/// All the money there will ever be, in its smallest unit: a billion for
/// each of 2^32 - 1.
pub const GENESIS_BALANCE: u64 = 4_294_967_295_000_000_000;

/// Why a replica did not do what it was asked.
#[derive(Debug, PartialEq, Eq)]
pub enum TransferError {
    /// The replica has no custody of the wallet.
    WalletNotFound,
    /// The wallet, or the signer, turned the request down.
    Validation(NdError),
    /// The key that a proof was signed with was never a key of the section.
    UnknownSectionKey,
    /// The key set of the replica's own section holds no key.
    NoSectionKey,
    /// What was offered as the first money could not be taken as such.
    InvalidGenesis,
    /// A credit was in order, and the replica had no signature to give.
    InvalidMessage,
}

/// Who a replica is among its peers, and what it signs with.
#[derive(Debug)]
pub struct ReplicaInfo {
    /// The replica's share of the section key.
    pub id: PublicKeyShare,
    /// The place of that share in the section's key set.
    pub key_index: usize,
    /// The key set of the section.
    pub peer_replicas: PublicKeySet,
    /// The keys that the section has had, oldest first.
    pub section_proof_chain: Vec<PublicKey>,
    /// The signer that holds the replica's secret key share.
    pub signing: ReplicaSigning,
}

/// The wallet that an event belongs to: the sender of a debit, the recipient
/// of a credit.
pub open spec fn wallet_of(event: ReplicaEvent) -> PublicKey {
    match event {
        ReplicaEvent::TransferValidated(e) => e.signed_debit.debit.id.actor,
        ReplicaEvent::TransferRegistered(e) => e.transfer_proof.signed_debit.debit.id.actor,
        ReplicaEvent::TransferPropagated(e) => e.credit_proof.signed_credit.credit.recipient,
        ReplicaEvent::KnownGroupAdded(e) => arbitrary(),
    }
}

/// None of the events tells of a group of replicas.
pub open spec fn only_transfers(events: Seq<ReplicaEvent>) -> bool {
    forall|i: int| 0 <= i < events.len() ==> !(#[trigger] events[i] is KnownGroupAdded)
}

/// Every event belongs to a wallet that has a log.
pub open spec fn all_in_custody(
    logs: Map<PublicKey, Seq<ReplicaEvent>>,
    events: Seq<ReplicaEvent>,
) -> bool {
    forall|i: int| 0 <= i < events.len() ==> logs.dom().contains(wallet_of(#[trigger] events[i]))
}

/// The logs after the events were appended in order, each to the log of its
/// wallet.
pub open spec fn appended(logs: Map<PublicKey, Seq<ReplicaEvent>>, events: Seq<ReplicaEvent>) -> Map<
    PublicKey,
    Seq<ReplicaEvent>,
>
    decreases events.len(),
{
    if events.len() == 0 {
        logs
    } else {
        let before = appended(logs, events.drop_last());
        let id = wallet_of(events.last());
        before.insert(id, before[id].push(events.last()))
    }
}

/// Some event of the log tells that this agreement was registered.
pub open spec fn registered_already(events: Seq<ReplicaEvent>, proof: TransferAgreementProof) -> bool {
    exists|i: int|
        0 <= i < events.len() && (#[trigger] events[i] matches ReplicaEvent::TransferRegistered(e)
            && e.transfer_proof == proof)
}

/// The logs of the wallets `ids`, one after the other.
pub open spec fn flattened(ids: Seq<PublicKey>, logs: Map<PublicKey, Seq<ReplicaEvent>>) -> Seq<
    ReplicaEvent,
>
    decreases ids.len(),
{
    if ids.len() == 0 {
        Seq::empty()
    } else {
        flattened(ids.drop_last(), logs) + logs[ids.last()]
    }
}

/// What becomes of a debit: refused where the wallet refuses it, nothing
/// where the wallet or the signer has nothing to say, and else the event
/// that holds the debit, the credit, the replica's two shares and the key
/// set of its section. The signer counts only where the wallet said yes.
pub open spec fn validated(
    transfer: SignedTransfer,
    checked: Result<Option<()>, NdError>,
    signed: Result<Option<(SignatureShare, SignatureShare)>, NdError>,
    replicas: PublicKeySet,
) -> Result<Option<TransferValidated>, TransferError> {
    match checked {
        Err(e) => Err(TransferError::Validation(e)),
        Ok(None) => Ok(None),
        Ok(Some(_)) => match signed {
            Err(e) => Err(TransferError::Validation(e)),
            Ok(None) => Ok(None),
            Ok(Some((debit_sig, credit_sig))) => Ok(
                Some(
                    TransferValidated {
                        signed_debit: transfer.debit,
                        signed_credit: transfer.credit,
                        replica_debit_sig: debit_sig,
                        replica_credit_sig: credit_sig,
                        replicas,
                    },
                ),
            ),
        },
    }
}

/// What becomes of an agreed transfer: refused where the wallet refuses it,
/// and else what the wallet gave.
pub open spec fn registered(checked: Result<Option<TransferRegistered>, NdError>) -> Result<
    Option<TransferRegistered>,
    TransferError,
> {
    match checked {
        Err(e) => Err(TransferError::Validation(e)),
        Ok(event) => Ok(event),
    }
}

/// What becomes of an agreed credit: refused where the wallet refuses it,
/// nothing where the wallet holds it already, an error where the replica has
/// no share to give, and else the event that holds the proof, the share and
/// the key of the replica's section. The signer counts only where the
/// credit is new.
pub open spec fn propagated(
    proof: CreditAgreementProof,
    checked: Result<Option<()>, NdError>,
    signed: Result<Option<SignatureShare>, NdError>,
    section: PublicKey,
) -> Result<Option<TransferPropagated>, TransferError> {
    match checked {
        Err(e) => Err(TransferError::Validation(e)),
        Ok(None) => Ok(None),
        Ok(Some(_)) => match signed {
            Err(e) => Err(TransferError::Validation(e)),
            Ok(None) => Err(TransferError::InvalidMessage),
            Ok(Some(share)) => Ok(
                Some(
                    TransferPropagated {
                        credit_proof: proof,
                        crediting_replica_sig: share,
                        crediting_replica_keys: section,
                    },
                ),
            ),
        },
    }
}

/// What becomes of the first credit: refused where the wallet refuses it,
/// nothing where the wallet holds it already or the replica has no share to
/// give, and else the event to append. The signer counts only where the
/// credit is new.
pub open spec fn founded(
    proof: CreditAgreementProof,
    checked: Result<Option<()>, NdError>,
    signed: Result<Option<SignatureShare>, NdError>,
    section: PublicKey,
) -> Result<Option<TransferPropagated>, TransferError> {
    match checked {
        Err(_) => Err(TransferError::InvalidGenesis),
        Ok(None) => Ok(None),
        Ok(Some(_)) => match signed {
            Err(e) => Err(TransferError::Validation(e)),
            Ok(None) => Ok(None),
            Ok(Some(share)) => Ok(
                Some(
                    TransferPropagated {
                        credit_proof: proof,
                        crediting_replica_sig: share,
                        crediting_replica_keys: section,
                    },
                ),
            ),
        },
    }
}

/// The event of a debit, from what the wallet and the signer said.
pub fn validated_event(
    transfer: SignedTransfer,
    checked: Result<Option<()>, NdError>,
    signed: Result<Option<(SignatureShare, SignatureShare)>, NdError>,
    replicas: PublicKeySet,
) -> (outcome: Result<Option<TransferValidated>, TransferError>)
    ensures
        outcome == validated(transfer, checked, signed, replicas),
{
    match checked {
        Err(e) => Err(TransferError::Validation(e)),
        Ok(None) => Ok(None),
        Ok(Some(_)) => match signed {
            Err(e) => Err(TransferError::Validation(e)),
            Ok(None) => Ok(None),
            Ok(Some((replica_debit_sig, replica_credit_sig))) => Ok(
                Some(
                    TransferValidated {
                        signed_debit: transfer.debit,
                        signed_credit: transfer.credit,
                        replica_debit_sig,
                        replica_credit_sig,
                        replicas,
                    },
                ),
            ),
        },
    }
}

/// The event of an agreed transfer, from what the wallet said.
pub fn registered_event(checked: Result<Option<TransferRegistered>, NdError>) -> (outcome: Result<
    Option<TransferRegistered>,
    TransferError,
>)
    ensures
        outcome == registered(checked),
{
    match checked {
        Err(e) => Err(TransferError::Validation(e)),
        Ok(event) => Ok(event),
    }
}

/// The event of an agreed credit, from what the wallet and the signer said.
pub fn propagated_event(
    proof: &CreditAgreementProof,
    checked: Result<Option<()>, NdError>,
    signed: Result<Option<SignatureShare>, NdError>,
    section: PublicKey,
) -> (outcome: Result<Option<TransferPropagated>, TransferError>)
    ensures
        outcome == propagated(*proof, checked, signed, section),
{
    match checked {
        Err(e) => Err(TransferError::Validation(e)),
        Ok(None) => Ok(None),
        Ok(Some(_)) => match signed {
            Err(e) => Err(TransferError::Validation(e)),
            Ok(None) => Err(TransferError::InvalidMessage),
            Ok(Some(crediting_replica_sig)) => Ok(
                Some(
                    TransferPropagated {
                        credit_proof: proof.clone(),
                        crediting_replica_sig,
                        crediting_replica_keys: section,
                    },
                ),
            ),
        },
    }
}

/// The event of the first credit, from what the wallet and the signer said.
pub fn genesis_event(
    proof: &CreditAgreementProof,
    checked: Result<Option<()>, NdError>,
    signed: Result<Option<SignatureShare>, NdError>,
    section: PublicKey,
) -> (outcome: Result<Option<TransferPropagated>, TransferError>)
    ensures
        outcome == founded(*proof, checked, signed, section),
{
    match checked {
        Err(_) => Err(TransferError::InvalidGenesis),
        Ok(None) => Ok(None),
        Ok(Some(_)) => match signed {
            Err(e) => Err(TransferError::Validation(e)),
            Ok(None) => Ok(None),
            Ok(Some(crediting_replica_sig)) => Ok(
                Some(
                    TransferPropagated {
                        credit_proof: proof.clone(),
                        crediting_replica_sig,
                        crediting_replica_keys: section,
                    },
                ),
            ),
        },
    }
}

/// Whether an event tells of a group of replicas, which no log takes.
pub fn is_group_event(event: &ReplicaEvent) -> (group: bool)
    ensures
        group == (*event is KnownGroupAdded),
{
    match event {
        ReplicaEvent::KnownGroupAdded(_) => true,
        _ => false,
    }
}

/// A credit that the wallet holds already is not taken again: where the
/// wallet answers that nothing changes, `receive_propagated` returns
/// nothing, and so appends nothing, however often it is asked.
pub proof fn held_credit_is_not_taken_again(before: Replicas, proof: CreditAgreementProof)
    requires
        before.logs().dom().contains(proof.signed_credit.credit.recipient),
        has_key(proof.debiting_replicas_keys),
        has_key(before.info().peer_replicas),
        before.info().section_proof_chain@.contains(section_key_of(proof.debiting_replicas_keys)),
        before.wallet(proof.signed_credit.credit.recipient) matches Ok(wallet) && propagation(
            wallet,
            proof,
            section_key_of(proof.debiting_replicas_keys),
        ) == Ok::<Option<()>, NdError>(None),
    ensures
        Replicas::propagate_verdict(before, proof) == Ok::<Option<TransferPropagated>, TransferError>(
            None,
        ),
{
}

/// What a wallet holds follows its log: a validated debit leaves it as it
/// is, a registered debit takes its amount off, a credit taken adds its
/// amount.
pub proof fn balance_follows_the_log(log: Seq<ReplicaEvent>, event: ReplicaEvent)
    ensures
        net(log.push(event)) == net(log) + (match event {
            ReplicaEvent::TransferPropagated(e) => nano(e.credit_proof.signed_credit.credit.amount) as int,
            ReplicaEvent::TransferRegistered(e) => -(nano(
                e.transfer_proof.signed_debit.debit.amount,
            ) as int),
            _ => 0,
        }),
{
    let longer = log.push(event);
    assert(longer.last() == event);
    assert(longer.drop_last() =~= log);
}

/// Once the event of a validated debit is in the log, that debit is the
/// one validated last, and the counter that follows it is not its own: what
/// `validate` admits next is another debit.
pub proof fn validated_debit_moves_the_counter(log: Seq<ReplicaEvent>, event: TransferValidated)
    ensures
        last_validated(log.push(ReplicaEvent::TransferValidated(event))) == Some(
            event.signed_debit.debit.id.counter,
        ),
        following(last_validated(log.push(ReplicaEvent::TransferValidated(event))))
            != event.signed_debit.debit.id.counter,
{
    let longer = log.push(ReplicaEvent::TransferValidated(event));
    assert(longer.last() == ReplicaEvent::TransferValidated(event));
}

/// Every registered debit in the log moves the count of registered debits,
/// which is the counter that `register` asks of the next, on by one.
pub proof fn registered_debit_is_counted(log: Seq<ReplicaEvent>, event: TransferRegistered)
    ensures
        registered_count(log.push(ReplicaEvent::TransferRegistered(event))) == registered_count(log)
            + 1,
{
    let longer = log.push(ReplicaEvent::TransferRegistered(event));
    assert(longer.last() == ReplicaEvent::TransferRegistered(event));
    assert(longer.drop_last() =~= log);
}

/// Once the event of a credit is in the log, the credit is among those of
/// the log, which are the ones that `receive_propagated` takes no more, and
/// every credit that was among them stays.
pub proof fn taken_credit_is_held(log: Seq<ReplicaEvent>, event: TransferPropagated)
    ensures
        credits_in(log.push(ReplicaEvent::TransferPropagated(event))).contains(
            event.credit_proof.signed_credit.credit.id@,
        ),
        forall|id: Seq<u8>| credits_in(log).contains(id) ==> credits_in(
            log.push(ReplicaEvent::TransferPropagated(event)),
        ).contains(id),
{
    let longer = log.push(ReplicaEvent::TransferPropagated(event));
    assert(longer[log.len() as int] == ReplicaEvent::TransferPropagated(event));
    assert forall|id: Seq<u8>| credits_in(log).contains(id) implies credits_in(longer).contains(
        id,
    ) by {
        let i = choose|i: int|
            0 <= i < log.len() && (#[trigger] log[i] matches ReplicaEvent::TransferPropagated(e)
                && e.credit_proof.signed_credit.credit.id@ == id);
        assert(longer[i] == log[i]);
    }
}

/// Only a replica that has custody of a wallet appends to its log: without
/// custody every command is refused.
pub proof fn without_custody_all_is_refused(
    before: Replicas,
    transfer: SignedTransfer,
    agreed: TransferAgreementProof,
    credit: CreditAgreementProof,
    past_key: PublicKey,
)
    ensures
        !before.logs().dom().contains(transfer.debit.debit.id.actor) ==> Replicas::validate_verdict(
            before,
            transfer,
        ) == Err::<Option<TransferValidated>, TransferError>(TransferError::WalletNotFound)
            && Replicas::test_validate_verdict(before, transfer) == Err::<
            Option<TransferValidated>,
            TransferError,
        >(TransferError::WalletNotFound),
        !before.logs().dom().contains(agreed.signed_debit.debit.id.actor)
            ==> Replicas::register_verdict(before, agreed) == Err::<
            Option<TransferRegistered>,
            TransferError,
        >(TransferError::WalletNotFound),
        !before.logs().dom().contains(credit.signed_credit.credit.recipient) ==> {
            &&& Replicas::propagate_verdict(before, credit) == Err::<
                Option<TransferPropagated>,
                TransferError,
            >(TransferError::WalletNotFound)
            &&& Replicas::genesis_verdict(before, credit, past_key) == Err::<
                Option<TransferPropagated>,
                TransferError,
            >(TransferError::WalletNotFound)
        },
{
}

/// Events appended from a history whose wallets all have a log leave the
/// set of wallets that have a log as it was.
pub proof fn appended_keeps_custody(logs: Map<PublicKey, Seq<ReplicaEvent>>, events: Seq<ReplicaEvent>)
    requires
        all_in_custody(logs, events),
    ensures
        appended(logs, events).dom() == logs.dom(),
    decreases events.len(),
{
    if events.len() > 0 {
        let shorter = events.drop_last();
        assert forall|i: int| 0 <= i < shorter.len() implies logs.dom().contains(
            wallet_of(#[trigger] shorter[i]),
        ) by {
            assert(shorter[i] == events[i]);
        }
        appended_keeps_custody(logs, shorter);
        assert(logs.dom().contains(wallet_of(events[events.len() - 1])));
        assert(appended(logs, events).dom() =~= logs.dom());
    }
}

/// Events appended from a history reach the log of no wallet but their own.
pub proof fn appended_leaves_others(
    logs: Map<PublicKey, Seq<ReplicaEvent>>,
    events: Seq<ReplicaEvent>,
    id: PublicKey,
)
    requires
        logs.dom().contains(id),
        forall|i: int| 0 <= i < events.len() ==> wallet_of(#[trigger] events[i]) != id,
    ensures
        appended(logs, events).dom().contains(id),
        appended(logs, events)[id] == logs[id],
    decreases events.len(),
{
    if events.len() > 0 {
        let shorter = events.drop_last();
        assert forall|i: int| 0 <= i < shorter.len() implies wallet_of(#[trigger] shorter[i])
            != id by {
            assert(shorter[i] == events[i]);
        }
        appended_leaves_others(logs, shorter, id);
        assert(wallet_of(events[events.len() - 1]) != id);
    }
}

/// A replica and the logs of the wallets it has custody of.
pub struct Replicas {
    info: ReplicaInfo,
    stores: Vec<TransferStore>,
}

impl Replicas {
    #[verifier::type_invariant]
    spec fn one_log_each(self) -> bool {
        one_store_each(self.stores@) && transfers_only(self.stores@)
    }

    /// Who the replica is.
    pub closed spec fn info(&self) -> ReplicaInfo {
        self.info
    }

    /// The wallets in custody, in the order in which they were taken.
    pub closed spec fn custody(&self) -> Seq<PublicKey> {
        wallets_of(self.stores@)
    }

    /// The log of every wallet in custody.
    pub closed spec fn logs(&self) -> Map<PublicKey, Seq<ReplicaEvent>> {
        as_logs(self.stores@)
    }

    /// The events of a wallet; none where the replica has no custody of it.
    pub open spec fn log_of(&self, id: PublicKey) -> Seq<ReplicaEvent> {
        if self.logs().dom().contains(id) {
            self.logs()[id]
        } else {
            Seq::empty()
        }
    }

    /// The wallet that the events of `id` make, as this replica sees it.
    pub open spec fn wallet(&self, id: PublicKey) -> Result<sn_transfers::WalletReplica, NdError> {
        replay(
            id,
            self.info().id,
            self.info().key_index,
            self.info().peer_replicas,
            self.log_of(id),
        )
    }

    /// The logs with `event` appended to the log of `id`.
    pub open spec fn logs_with(&self, id: PublicKey, event: ReplicaEvent) -> Map<
        PublicKey,
        Seq<ReplicaEvent>,
    > {
        self.logs().insert(id, self.logs()[id].push(event))
    }

    /// A replica that has custody of no wallet.
    pub fn new(info: ReplicaInfo) -> (replicas: Replicas)
        ensures
            replicas.info() == info,
            replicas.custody() == Seq::<PublicKey>::empty(),
            replicas.logs() == Map::<PublicKey, Seq<ReplicaEvent>>::empty(),
    {
        let replicas = Replicas { info, stores: Vec::new() };
        assert(replicas.custody() =~= Seq::<PublicKey>::empty());
        assert(replicas.logs() =~= Map::<PublicKey, Seq<ReplicaEvent>>::empty());
        replicas
    }

    /// Takes custody of a wallet: it has a log from now on, empty at first.
    /// A wallet in custody already stays as it is.
    pub fn take_custody(&mut self, id: PublicKey)
        ensures
            final(self).info() == old(self).info(),
            old(self).logs().dom().contains(id) ==> final(self).logs() == old(self).logs()
                && final(self).custody() == old(self).custody(),
            !old(self).logs().dom().contains(id) ==> final(self).logs() == old(self).logs().insert(
                id,
                Seq::empty(),
            ) && final(self).custody() == old(self).custody().push(id),
    {
        proof {
            use_type_invariant(&*self);
        }
        if self.find(id).is_none() {
            let ghost before = self.stores@;
            let store = TransferStore::new(id);
            let mut stores: Vec<TransferStore> = Vec::new();
            std::mem::swap(&mut self.stores, &mut stores);
            stores.push(store);
            proof {
                store_added(before, stores@, store);
                assert forall|i: int, j: int|
                    0 <= i < stores@.len() && 0 <= j < stores@[i].log().len() implies !(
                #[trigger] event_at(stores@, i, j) is KnownGroupAdded) by {
                    assert(event_at(stores@, i, j) == event_at(before, i, j));
                }
            }
            self.stores = stores;
        }
    }

    /// Whether the replica has custody of a wallet.
    pub fn has_custody(&self, id: PublicKey) -> (held: bool)
        ensures
            held == self.logs().dom().contains(id),
    {
        self.find(id).is_some()
    }

    // -----------------------------------------------------------------
    // ---------------------- Queries ----------------------------------
    // -----------------------------------------------------------------

    /// The events of all wallets in custody, wallet after wallet.
    pub fn all_events(&self) -> (events: Result<Option<Vec<ReplicaEvent>>, TransferError>)
        ensures
            events matches Ok(Some(all)) && all@ == flattened(self.custody(), self.logs()),
    {
        proof {
            use_type_invariant(self);
        }
        let mut all: Vec<ReplicaEvent> = Vec::new();
        let mut i: usize = 0;
        while i < self.stores.len()
            invariant
                i <= self.stores@.len(),
                one_store_each(self.stores@),
                all@ == flattened(wallets_of(self.stores@).take(i as int), as_logs(self.stores@)),
            decreases self.stores@.len() - i,
        {
            let mut events = self.stores[i].get_all();
            proof {
                let ids = wallets_of(self.stores@);
                store_is_mapped(self.stores@, i as int);
                assert(ids.take(i + 1).drop_last() =~= ids.take(i as int));
                assert(ids.take(i + 1).last() == wallet_at(self.stores@, i as int));
            }
            all.append(&mut events);
            i += 1;
        }
        assert(wallets_of(self.stores@).take(i as int) =~= wallets_of(self.stores@));
        Ok(Some(all))
    }

    /// The events of one wallet, oldest first.
    pub fn history(&self, id: PublicKey) -> (events: Result<Option<Vec<ReplicaEvent>>, TransferError>)
        ensures
            events matches Ok(Some(log)) && log@ == self.log_of(id) && only_transfers(log@),
    {
        Ok(Some(self.events_of(id)))
    }

    /// What a wallet holds: the balance of the wallet that its history
    /// makes, which is what its credits have brought less what its
    /// registered debits have taken.
    pub fn balance(&self, id: PublicKey) -> (balance: Result<Option<Money>, TransferError>)
        ensures
            balance == match self.wallet(id) {
                Ok(wallet) => Ok::<Option<Money>, TransferError>(Some(wallet_balance(wallet))),
                Err(e) => Err(TransferError::Validation(e)),
            },
            balance matches Ok(Some(amount)) ==> nano(amount) == net(self.log_of(id)),
            self.log_of(id).len() == 0 ==> (balance matches Ok(Some(amount)) && nano(amount) == 0),
    {
        match self.load_wallet(id) {
            Ok(wallet) => Ok(Some(balance_of(&wallet))),
            Err(e) => Err(TransferError::Validation(e)),
        }
    }

    /// The key set of the replica's section.
    pub fn replicas_pk_set(&self) -> (keys: PublicKeySet)
        ensures
            keys == self.info().peer_replicas,
    {
        self.info.peer_replicas.clone()
    }

    /// The key of the replica's section, which is also the wallet that the
    /// first money goes to.
    pub fn founder(&self) -> (key: Result<PublicKey, TransferError>)
        ensures
            key == (if has_key(self.info().peer_replicas) {
                Ok::<PublicKey, TransferError>(section_key_of(self.info().peer_replicas))
            } else {
                Err(TransferError::NoSectionKey)
            }),
    {
        if key_set_has_key(&self.info.peer_replicas) {
            Ok(section_key(&self.info.peer_replicas))
        } else {
            Err(TransferError::NoSectionKey)
        }
    }

    // -----------------------------------------------------------------
    // ---------------------- Cmds -------------------------------------
    // -----------------------------------------------------------------

    /// The one and only infusion of money: `credit_proof` is taken as the
    /// first credit of its recipient, where the log of the wallet is empty
    /// and the proof stands under `past_key` or the key of the section.
    /// Without a share from the signer nothing is appended.
    pub fn genesis(&mut self, credit_proof: &CreditAgreementProof, past_key: PublicKey) -> (outcome:
        Result<Option<()>, TransferError>)
        ensures
            final(self).info() == old(self).info(),
            final(self).custody() == old(self).custody(),
            outcome == Self::genesis_outcome(*old(self), *credit_proof, past_key),
            old(self).log_of(credit_proof.signed_credit.credit.recipient).len() > 0 && old(
                self,
            ).logs().dom().contains(credit_proof.signed_credit.credit.recipient) ==> outcome == Err::<
                Option<()>,
                TransferError,
            >(TransferError::InvalidGenesis) && final(self).logs() == old(self).logs(),
            final(self).logs() == match Self::genesis_verdict(*old(self), *credit_proof, past_key) {
                Ok(Some(event)) => old(self).logs_with(
                    credit_proof.signed_credit.credit.recipient,
                    ReplicaEvent::TransferPropagated(event),
                ),
                _ => old(self).logs(),
            },
    {
        let id = credit_proof.signed_credit.credit.recipient;
        // The wallet must be in custody.
        let place = match self.find(id) {
            Some(place) => place,
            None => return Err(TransferError::WalletNotFound),
        };
        // Genesis must be the first event.
        if self.stores[place].len() > 0 {
            return Err(TransferError::InvalidGenesis);
        }
        let wallet = match self.load_wallet(id) {
            Ok(wallet) => wallet,
            Err(e) => return Err(TransferError::Validation(e)),
        };
        if !key_set_has_key(&self.info.peer_replicas) {
            return Err(TransferError::NoSectionKey);
        }
        let checked = wallet_genesis(&wallet, credit_proof, past_key);
        let signed = match &checked {
            Ok(Some(_)) => sign_credit_proof(&self.info.signing, credit_proof),
            _ => Ok(None),
        };
        let section = section_key(&self.info.peer_replicas);
        match genesis_event(credit_proof, checked, signed, section) {
            Err(e) => Err(e),
            Ok(None) => Ok(None),
            Ok(Some(event)) => {
                self.append(place, ReplicaEvent::TransferPropagated(event));
                Ok(None)
            },
        }
    }

    /// The event that `genesis` appends, or why it appends none.
    pub open spec fn genesis_verdict(
        before: Replicas,
        proof: CreditAgreementProof,
        past_key: PublicKey,
    ) -> Result<Option<TransferPropagated>, TransferError> {
        let id = proof.signed_credit.credit.recipient;
        if !before.logs().dom().contains(id) {
            Err(TransferError::WalletNotFound)
        } else if before.log_of(id).len() > 0 {
            Err(TransferError::InvalidGenesis)
        } else {
            match before.wallet(id) {
                Err(e) => Err(TransferError::Validation(e)),
                Ok(wallet) => if !has_key(before.info().peer_replicas) {
                    Err(TransferError::NoSectionKey)
                } else {
                    founded(
                        proof,
                        genesis_check(wallet, proof, past_key),
                        if genesis_check(wallet, proof, past_key) matches Ok(Some(_)) {
                            credit_signature(before.info().signing, proof)
                        } else {
                            Ok(None)
                        },
                        section_key_of(before.info().peer_replicas),
                    )
                },
            }
        }
    }

    /// What `genesis` returns.
    pub open spec fn genesis_outcome(
        before: Replicas,
        proof: CreditAgreementProof,
        past_key: PublicKey,
    ) -> Result<Option<()>, TransferError> {
        match Self::genesis_verdict(before, proof, past_key) {
            Err(e) => Err(e),
            Ok(_) => Ok(None),
        }
    }

    /// Takes up a history: every event is appended to the log of its wallet
    /// as it stands, or none is where the wallet of one is not in custody.
    /// Without events the replica founds the network: it takes custody of
    /// the wallet of its section's key, makes the credit of all money to
    /// that key and takes it as `genesis` does.
    pub fn initiate(&mut self, events: &[ReplicaEvent]) -> (outcome: Result<Option<()>, TransferError>)
        requires
            only_transfers(events@),
        ensures
            final(self).info() == old(self).info(),
            events@.len() > 0 ==> final(self).custody() == old(self).custody(),
            events@.len() > 0 && all_in_custody(old(self).logs(), events@) ==> final(self).logs()
                == appended(old(self).logs(), events@) && outcome == Ok::<Option<()>, TransferError>(
                None,
            ),
            events@.len() > 0 && !all_in_custody(old(self).logs(), events@) ==> final(self).logs()
                == old(self).logs() && outcome == Err::<Option<()>, TransferError>(
                TransferError::WalletNotFound,
            ),
            events@.len() == 0 ==> Self::founded_or_not(*old(self), *final(self), outcome),
    {
        if events.len() == 0 {
            // This replica is the first in the network.
            if !key_set_has_key(&self.info.peer_replicas) {
                return Err(TransferError::NoSectionKey);
            }
            let founder = section_key(&self.info.peer_replicas);
            self.take_custody(founder);
            let ghost admitted = *self;
            // Genesis must be the first event.
            match self.find(founder) {
                Some(place) => {
                    if self.stores[place].len() > 0 {
                        return Err(TransferError::InvalidGenesis);
                    }
                },
                None => {},
            }
            let credit_proof = match get_genesis(GENESIS_BALANCE, founder) {
                Ok(credit_proof) => credit_proof,
                Err(e) => return Err(TransferError::Validation(e)),
            };
            if !key_set_has_key(&credit_proof.debiting_replicas_keys) {
                return Err(TransferError::InvalidGenesis);
            }
            let genesis_source = section_key(&credit_proof.debiting_replicas_keys);
            let outcome = self.genesis(&credit_proof, genesis_source);
            proof {
                match Self::genesis_verdict(admitted, credit_proof, genesis_source) {
                    Ok(Some(event)) => {
                        assert(admitted.logs_with(founder, ReplicaEvent::TransferPropagated(event))
                            == self.logs());
                        assert(Self::with_custody(*old(self), founder).insert(
                            founder,
                            Self::with_custody(*old(self), founder)[founder].push(
                                ReplicaEvent::TransferPropagated(event),
                            ),
                        ) == self.logs());
                    },
                    _ => {},
                }
            }
            return outcome;
        }
        // Nothing is appended unless every wallet is in custody.
        let mut k: usize = 0;
        while k < events.len()
            invariant
                k <= events@.len(),
                only_transfers(events@),
                *self == *old(self),
                all_in_custody(self.logs(), events@.take(k as int)),
            decreases events@.len() - k,
        {
            let id = match Self::wallet_of_event(&events[k]) {
                Some(id) => id,
                None => {
                    assert(events@[k as int] is KnownGroupAdded);
                    return Ok(None);
                },
            };
            if self.find(id).is_none() {
                assert(!self.logs().dom().contains(wallet_of(events@[k as int])));
                return Err(TransferError::WalletNotFound);
            }
            proof {
                let next = events@.take(k + 1);
                assert forall|j: int| 0 <= j < next.len() implies self.logs().dom().contains(
                    wallet_of(#[trigger] next[j]),
                ) by {
                    if j < k {
                        assert(events@.take(k as int)[j] == next[j]);
                    }
                }
            }
            k += 1;
        }
        assert(events@.take(k as int) =~= events@);
        let mut i: usize = 0;
        while i < events.len()
            invariant
                i <= events@.len(),
                only_transfers(events@),
                self.info() == old(self).info(),
                self.custody() == old(self).custody(),
                self.logs().dom() == old(self).logs().dom(),
                all_in_custody(old(self).logs(), events@),
                self.logs() == appended(old(self).logs(), events@.take(i as int)),
            decreases events@.len() - i,
        {
            let e = &events[i];
            let id = match Self::wallet_of_event(e) {
                Some(id) => id,
                None => {
                    assert(events@[i as int] is KnownGroupAdded);
                    return Ok(None);
                },
            };
            // The wallet is in custody.
            let place = match self.find(id) {
                Some(place) => place,
                None => {
                    assert(old(self).logs().dom().contains(wallet_of(events@[i as int])));
                    return Err(TransferError::WalletNotFound);
                },
            };
            self.append(place, e.clone());
            proof {
                let next = events@.take(i + 1);
                assert(next.drop_last() =~= events@.take(i as int));
                assert(next.last() == events@[i as int]);
                assert(self.logs().dom() =~= old(self).logs().dom());
            }
            i += 1;
        }
        assert(events@.take(i as int) =~= events@);
        Ok(None)
    }

    /// The wallet that an event belongs to; none for an event that tells of
    /// a group of replicas.
    fn wallet_of_event(event: &ReplicaEvent) -> (id: Option<PublicKey>)
        ensures
            match id {
                Some(id) => !(*event is KnownGroupAdded) && id == wallet_of(*event),
                None => *event is KnownGroupAdded,
            },
    {
        match event {
            ReplicaEvent::TransferValidated(e) => Some(e.signed_debit.debit.id.actor),
            ReplicaEvent::TransferRegistered(e) => Some(
                e.transfer_proof.signed_debit.debit.id.actor,
            ),
            ReplicaEvent::TransferPropagated(e) => Some(
                e.credit_proof.signed_credit.credit.recipient,
            ),
            ReplicaEvent::KnownGroupAdded(_) => None,
        }
    }

    /// The logs once the wallet `id` is in custody: as they were, with an
    /// empty log for `id` where it had none.
    pub open spec fn with_custody(before: Replicas, id: PublicKey) -> Map<
        PublicKey,
        Seq<ReplicaEvent>,
    > {
        if before.logs().dom().contains(id) {
            before.logs()
        } else {
            before.logs().insert(id, Seq::empty())
        }
    }

    /// What `initiate` has done where it was given no events. A replica
    /// whose section has no key does nothing. Any other has the wallet of its
    /// section's key in custody afterwards, and either leaves its log as it
    /// was or appends one credit of all money to that key; a log that held
    /// events already is left alone, with an error.
    pub open spec fn founded_or_not(
        before: Replicas,
        after: Replicas,
        outcome: Result<Option<()>, TransferError>,
    ) -> bool {
        let founder = section_key_of(before.info().peer_replicas);
        let admitted = Self::with_custody(before, founder);
        if !has_key(before.info().peer_replicas) {
            &&& outcome == Err::<Option<()>, TransferError>(TransferError::NoSectionKey)
            &&& after.logs() == before.logs()
            &&& after.custody() == before.custody()
        } else {
            &&& after.custody() == (if before.logs().dom().contains(founder) {
                before.custody()
            } else {
                before.custody().push(founder)
            })
            &&& outcome is Ok || after.logs() == admitted
            &&& before.log_of(founder).len() > 0 ==> outcome == Err::<Option<()>, TransferError>(
                TransferError::InvalidGenesis,
            )
            &&& after.logs() == admitted || exists|event: TransferPropagated|
                {
                    &&& #[trigger] admitted.insert(
                        founder,
                        admitted[founder].push(ReplicaEvent::TransferPropagated(event)),
                    ) == after.logs()
                    &&& event.credit_proof.signed_credit.credit.recipient == founder
                    &&& nano(event.credit_proof.signed_credit.credit.amount) == GENESIS_BALANCE
                    &&& event.crediting_replica_keys == founder
                }
        }
    }

    /// Puts `info` in place of what the replica knew of itself and its
    /// section.
    pub fn update_replica_keys(&mut self, info: ReplicaInfo)
        ensures
            final(self).info() == info,
            final(self).custody() == old(self).custody(),
            final(self).logs() == old(self).logs(),
    {
        proof {
            use_type_invariant(&*self);
        }
        self.info = info;
    }

    /// As `validate`, but the wallet is asked only whether debit and credit
    /// fit each other; the event is appended and not handed back.
    pub fn test_validate_transfer(&mut self, signed_transfer: SignedTransfer) -> (outcome: Result<
        Option<()>,
        TransferError,
    >)
        ensures
            final(self).info() == old(self).info(),
            final(self).custody() == old(self).custody(),
            outcome == match Self::test_validate_verdict(*old(self), signed_transfer) {
                Err(e) => Err::<Option<()>, TransferError>(e),
                Ok(_) => Ok(None),
            },
            final(self).logs() == match Self::test_validate_verdict(*old(self), signed_transfer) {
                Ok(Some(event)) => old(self).logs_with(
                    signed_transfer.debit.debit.id.actor,
                    ReplicaEvent::TransferValidated(event),
                ),
                _ => old(self).logs(),
            },
    {
        let id = signed_transfer.debit.debit.id.actor;
        // The wallet must be in custody.
        let place = match self.find(id) {
            Some(place) => place,
            None => return Err(TransferError::WalletNotFound),
        };
        let wallet = match self.load_wallet(id) {
            Ok(wallet) => wallet,
            Err(e) => return Err(TransferError::Validation(e)),
        };
        let checked = wallet_test_validate(
            &wallet,
            &signed_transfer.debit,
            &signed_transfer.credit,
        );
        let signed = match &checked {
            Ok(Some(_)) => sign_transfer(&self.info.signing, &signed_transfer),
            _ => Ok(None),
        };
        let replicas = self.info.peer_replicas.clone();
        match validated_event(signed_transfer, checked, signed, replicas) {
            Err(e) => Err(e),
            Ok(None) => Ok(None),
            Ok(Some(event)) => {
                self.append(place, ReplicaEvent::TransferValidated(event));
                Ok(None)
            },
        }
    }

    /// The event that `test_validate_transfer` appends, or why it appends
    /// none.
    pub open spec fn test_validate_verdict(before: Replicas, transfer: SignedTransfer) -> Result<
        Option<TransferValidated>,
        TransferError,
    > {
        let id = transfer.debit.debit.id.actor;
        if !before.logs().dom().contains(id) {
            Err(TransferError::WalletNotFound)
        } else {
            match before.wallet(id) {
                Err(e) => Err(TransferError::Validation(e)),
                Ok(wallet) => validated(
                    transfer,
                    test_validation(wallet, transfer.debit, transfer.credit),
                    if test_validation(wallet, transfer.debit, transfer.credit) matches Ok(Some(_)) {
                        transfer_signatures(before.info().signing, transfer)
                    } else {
                        Ok(None)
                    },
                    before.info().peer_replicas,
                ),
            }
        }
    }

    /// Step 1. A debit is held against the wallet of its sender. Where the
    /// wallet admits it, the balance covers it and the signer signs, the
    /// event with the replica's shares is appended to the log and handed
    /// back; else nothing changes.
    pub fn validate(&mut self, signed_transfer: SignedTransfer) -> (outcome: Result<
        Option<TransferValidated>,
        TransferError,
    >)
        ensures
            final(self).info() == old(self).info(),
            final(self).custody() == old(self).custody(),
            !Self::debits_used_up(*old(self), signed_transfer) && !Self::overdrawn(
                *old(self),
                signed_transfer,
            ) ==> outcome == Self::validate_verdict(*old(self), signed_transfer),
            Self::debits_used_up(*old(self), signed_transfer) || Self::overdrawn(
                *old(self),
                signed_transfer,
            ) ==> outcome matches Err(TransferError::Validation(_)),
            old(self).logs().dom().contains(signed_transfer.debit.debit.id.actor) && old(
                self,
            ).wallet(signed_transfer.debit.debit.id.actor) is Ok
                && signed_transfer.debit.debit.id.counter != following(
                last_validated(old(self).log_of(signed_transfer.debit.debit.id.actor)),
            ) ==> outcome is Err,
            old(self).logs().dom().contains(signed_transfer.debit.debit.id.actor) && (old(
                self,
            ).wallet(signed_transfer.debit.debit.id.actor) matches Ok(wallet) && nano(
                signed_transfer.debit.debit.amount,
            ) > nano(wallet_balance(wallet))) ==> outcome is Err,
            outcome matches Ok(Some(_)) ==> {
                &&& signed_transfer.debit.debit.id.actor != signed_transfer.credit.credit.recipient
                &&& signed_transfer.credit.credit.amount == signed_transfer.debit.debit.amount
                &&& nano(signed_transfer.debit.debit.amount) != 0
                &&& signed_transfer.debit.debit.id.counter == following(
                    last_validated(old(self).log_of(signed_transfer.debit.debit.id.actor)),
                )
                &&& nano(signed_transfer.debit.debit.amount) <= net(
                    old(self).log_of(signed_transfer.debit.debit.id.actor),
                )
            },
            final(self).logs() == match outcome {
                Ok(Some(event)) => old(self).logs_with(
                    signed_transfer.debit.debit.id.actor,
                    ReplicaEvent::TransferValidated(event),
                ),
                _ => old(self).logs(),
            },
    {
        let id = signed_transfer.debit.debit.id.actor;
        // The wallet must be in custody.
        let place = match self.find(id) {
            Some(place) => place,
            None => return Err(TransferError::WalletNotFound),
        };
        let wallet = match self.load_wallet(id) {
            Ok(wallet) => wallet,
            Err(e) => return Err(TransferError::Validation(e)),
        };
        // The wallet counts one up from the debit it has validated last.
        if self.holds_last_debit(place) {
            return Err(TransferError::Validation(out_of_order()));
        }
        assert(pending_debit(wallet) == last_validated(old(self).log_of(id)));
        let checked = wallet_validate(&wallet, &signed_transfer.debit, &signed_transfer.credit);
        // The wallet holds only its first debit against the balance.
        if checked.is_ok() && checked.as_ref().unwrap().is_some() && signed_transfer.debit.debit.amount.as_nano()
            > balance_of(&wallet).as_nano() {
            return Err(TransferError::Validation(insufficient_balance()));
        }
        let signed = match &checked {
            Ok(Some(_)) => sign_transfer(&self.info.signing, &signed_transfer),
            _ => Ok(None),
        };
        let replicas = self.info.peer_replicas.clone();
        match validated_event(signed_transfer, checked, signed, replicas) {
            Err(e) => Err(e),
            Ok(None) => Ok(None),
            Ok(Some(event)) => {
                self.append(place, ReplicaEvent::TransferValidated(event.clone()));
                Ok(Some(event))
            },
        }
    }

    /// The wallet of the sender admits the debit, which asks for more than
    /// the wallet holds: `validate` refuses it.
    pub open spec fn overdrawn(before: Replicas, transfer: SignedTransfer) -> bool {
        let id = transfer.debit.debit.id.actor;
        &&& before.logs().dom().contains(id)
        &&& last_validated(before.log_of(id)) != Some(u64::MAX)
        &&& before.wallet(id) matches Ok(wallet) && validation(
            wallet,
            transfer.debit,
            transfer.credit,
        ) matches Ok(Some(_)) && nano(transfer.debit.debit.amount) > nano(wallet_balance(wallet))
    }

    /// The wallet of the sender is in custody and replays, and the debit
    /// that it has validated last has the largest counter there is: no debit
    /// can follow, and `validate` refuses whatever is offered.
    pub open spec fn debits_used_up(before: Replicas, transfer: SignedTransfer) -> bool {
        let id = transfer.debit.debit.id.actor;
        &&& before.logs().dom().contains(id)
        &&& before.wallet(id) is Ok
        &&& last_validated(before.log_of(id)) == Some(u64::MAX)
    }

    /// Whether the debit validated last in the log at `place` has the
    /// largest counter there is.
    fn holds_last_debit(&self, place: usize) -> (held: bool)
        requires
            place < self.stores@.len(),
        ensures
            held == (last_validated(self.stores@[place as int].log()) == Some(u64::MAX)),
    {
        let store = &self.stores[place];
        let mut last: Option<u64> = None;
        let mut i: usize = 0;
        while i < store.len()
            invariant
                i <= store.log().len(),
                place < self.stores@.len(),
                *store == self.stores@[place as int],
                last == last_validated(store.log().take(i as int)),
            decreases store.log().len() - i,
        {
            proof {
                let next = store.log().take(i + 1);
                assert(next.drop_last() =~= store.log().take(i as int));
                assert(next.last() == store.log()[i as int]);
            }
            match store.event(i) {
                ReplicaEvent::TransferValidated(e) => {
                    last = Some(e.signed_debit.debit.id.counter);
                },
                _ => {},
            }
            i += 1;
        }
        assert(store.log().take(i as int) =~= store.log());
        match last {
            Some(counter) => counter == u64::MAX,
            None => false,
        }
    }

    /// What `validate` returns.
    pub open spec fn validate_verdict(before: Replicas, transfer: SignedTransfer) -> Result<
        Option<TransferValidated>,
        TransferError,
    > {
        let id = transfer.debit.debit.id.actor;
        if !before.logs().dom().contains(id) {
            Err(TransferError::WalletNotFound)
        } else {
            match before.wallet(id) {
                Err(e) => Err(TransferError::Validation(e)),
                Ok(wallet) => validated(
                    transfer,
                    validation(wallet, transfer.debit, transfer.credit),
                    if validation(wallet, transfer.debit, transfer.credit) matches Ok(Some(_)) {
                        transfer_signatures(before.info().signing, transfer)
                    } else {
                        Ok(None)
                    },
                    before.info().peer_replicas,
                ),
            }
        }
    }

    /// Step 2. An agreed transfer is registered at the wallet of its sender:
    /// the key it was signed with must be a key that the section has had,
    /// and the wallet must take it. The event is appended to the log and
    /// handed back; else nothing changes. An agreement that the log holds
    /// as registered already is answered with nothing.
    pub fn register(&mut self, transfer_proof: &TransferAgreementProof) -> (outcome: Result<
        Option<TransferRegistered>,
        TransferError,
    >)
        ensures
            final(self).info() == old(self).info(),
            final(self).custody() == old(self).custody(),
            outcome == Self::register_verdict(*old(self), *transfer_proof),
            outcome matches Ok(Some(event)) ==> event.transfer_proof == *transfer_proof,
            outcome matches Ok(Some(_)) ==> transfer_proof.signed_debit.debit.id.counter
                == registered_count(old(self).log_of(transfer_proof.signed_debit.debit.id.actor)),
            outcome matches Ok(None) ==> registered_already(
                old(self).log_of(transfer_proof.signed_debit.debit.id.actor),
                *transfer_proof,
            ),
            old(self).logs().dom().contains(transfer_proof.signed_debit.debit.id.actor)
                && !registered_already(
                old(self).log_of(transfer_proof.signed_debit.debit.id.actor),
                *transfer_proof,
            ) && transfer_proof.signed_debit.debit.id.counter != registered_count(
                old(self).log_of(transfer_proof.signed_debit.debit.id.actor),
            ) ==> outcome is Err,
            final(self).logs() == match outcome {
                Ok(Some(event)) => old(self).logs_with(
                    transfer_proof.signed_debit.debit.id.actor,
                    ReplicaEvent::TransferRegistered(event),
                ),
                _ => old(self).logs(),
            },
    {
        let id = transfer_proof.signed_debit.debit.id.actor;
        // The wallet must be in custody.
        let place = match self.find(id) {
            Some(place) => place,
            None => return Err(TransferError::WalletNotFound),
        };
        if self.holds_agreement(place, transfer_proof) {
            return Ok(None);
        }
        let wallet = match self.load_wallet(id) {
            Ok(wallet) => wallet,
            Err(e) => return Err(TransferError::Validation(e)),
        };
        let past_key = match self.find_past_key(&transfer_proof.debiting_replicas_keys) {
            Ok(past_key) => past_key,
            Err(e) => return Err(e),
        };
        if !key_set_has_key(&self.info.peer_replicas) {
            return Err(TransferError::NoSectionKey);
        }
        match registered_event(wallet_register(&wallet, transfer_proof, past_key)) {
            Err(e) => Err(e),
            Ok(None) => Ok(None),
            Ok(Some(event)) => {
                self.append(place, ReplicaEvent::TransferRegistered(event.clone()));
                Ok(Some(event))
            },
        }
    }

    /// Whether the log at `place` holds the agreement as registered.
    fn holds_agreement(&self, place: usize, proof: &TransferAgreementProof) -> (held: bool)
        requires
            place < self.stores@.len(),
        ensures
            held == registered_already(self.stores@[place as int].log(), *proof),
    {
        let store = &self.stores[place];
        let mut i: usize = 0;
        while i < store.len()
            invariant
                i <= store.log().len(),
                place < self.stores@.len(),
                *store == self.stores@[place as int],
                forall|j: int|
                    0 <= j < i ==> !(#[trigger] store.log()[j] matches ReplicaEvent::TransferRegistered(
                        e,
                    ) && e.transfer_proof == *proof),
            decreases store.log().len() - i,
        {
            match store.event(i) {
                ReplicaEvent::TransferRegistered(e) => {
                    if same_agreement(&e.transfer_proof, proof) {
                        assert(store.log()[i as int] matches ReplicaEvent::TransferRegistered(r)
                            && r.transfer_proof == *proof);
                        return true;
                    }
                },
                _ => {},
            }
            i += 1;
        }
        false
    }

    /// What `register` returns.
    pub open spec fn register_verdict(before: Replicas, proof: TransferAgreementProof) -> Result<
        Option<TransferRegistered>,
        TransferError,
    > {
        let id = proof.signed_debit.debit.id.actor;
        let key = section_key_of(proof.debiting_replicas_keys);
        if !before.logs().dom().contains(id) {
            Err(TransferError::WalletNotFound)
        } else if registered_already(before.log_of(id), proof) {
            Ok(None)
        } else {
            match before.wallet(id) {
                Err(e) => Err(TransferError::Validation(e)),
                Ok(wallet) => if !before.knows_key_of(proof.debiting_replicas_keys) {
                    Err(TransferError::UnknownSectionKey)
                } else if !has_key(before.info().peer_replicas) {
                    Err(TransferError::NoSectionKey)
                } else {
                    registered(registration(wallet, proof, key))
                },
            }
        }
    }

    /// The key set holds a key, and the section has had that key.
    pub open spec fn knows_key_of(&self, keys: PublicKeySet) -> bool {
        has_key(keys) && self.info().section_proof_chain@.contains(section_key_of(keys))
    }

    /// Step 3. An agreed credit is taken at the wallet of its recipient: the
    /// key it was signed with must be a key that the section has had, and
    /// the wallet must take it. A credit that the wallet holds already
    /// changes nothing. The event with the replica's share is appended to
    /// the log and handed back.
    pub fn receive_propagated(&mut self, credit_proof: &CreditAgreementProof) -> (outcome: Result<
        Option<TransferPropagated>,
        TransferError,
    >)
        ensures
            final(self).info() == old(self).info(),
            final(self).custody() == old(self).custody(),
            outcome == Self::propagate_verdict(*old(self), *credit_proof),
            outcome matches Ok(Some(_)) ==> !credits_in(
                old(self).log_of(credit_proof.signed_credit.credit.recipient),
            ).contains(credit_proof.signed_credit.credit.id@),
            outcome matches Ok(None) ==> credits_in(
                old(self).log_of(credit_proof.signed_credit.credit.recipient),
            ).contains(credit_proof.signed_credit.credit.id@),
            final(self).logs() == match outcome {
                Ok(Some(event)) => old(self).logs_with(
                    credit_proof.signed_credit.credit.recipient,
                    ReplicaEvent::TransferPropagated(event),
                ),
                _ => old(self).logs(),
            },
    {
        let id = credit_proof.signed_credit.credit.recipient;
        // The wallet must be in custody.
        let place = match self.find(id) {
            Some(place) => place,
            None => return Err(TransferError::WalletNotFound),
        };
        let wallet = match self.load_wallet(id) {
            Ok(wallet) => wallet,
            Err(e) => return Err(TransferError::Validation(e)),
        };
        let past_key = match self.find_past_key(&credit_proof.debiting_replicas_keys) {
            Ok(past_key) => past_key,
            Err(e) => return Err(e),
        };
        if !key_set_has_key(&self.info.peer_replicas) {
            return Err(TransferError::NoSectionKey);
        }
        let checked = wallet_receive_propagated(&wallet, credit_proof, past_key);
        let signed = match &checked {
            Ok(Some(_)) => sign_credit_proof(&self.info.signing, credit_proof),
            _ => Ok(None),
        };
        let section = section_key(&self.info.peer_replicas);
        match propagated_event(credit_proof, checked, signed, section) {
            Err(e) => Err(e),
            Ok(None) => Ok(None),
            Ok(Some(event)) => {
                self.append(place, ReplicaEvent::TransferPropagated(event.clone()));
                Ok(Some(event))
            },
        }
    }

    /// What `receive_propagated` returns.
    pub open spec fn propagate_verdict(before: Replicas, proof: CreditAgreementProof) -> Result<
        Option<TransferPropagated>,
        TransferError,
    > {
        let id = proof.signed_credit.credit.recipient;
        let key = section_key_of(proof.debiting_replicas_keys);
        if !before.logs().dom().contains(id) {
            Err(TransferError::WalletNotFound)
        } else {
            match before.wallet(id) {
                Err(e) => Err(TransferError::Validation(e)),
                Ok(wallet) => if !before.knows_key_of(proof.debiting_replicas_keys) {
                    Err(TransferError::UnknownSectionKey)
                } else if !has_key(before.info().peer_replicas) {
                    Err(TransferError::NoSectionKey)
                } else {
                    propagated(
                        proof,
                        propagation(wallet, proof, key),
                        if propagation(wallet, proof, key) matches Ok(Some(_)) {
                            credit_signature(before.info().signing, proof)
                        } else {
                            Ok(None)
                        },
                        section_key_of(before.info().peer_replicas),
                    )
                },
            }
        }
    }

    /// The place of the store of a wallet.
    fn find(&self, id: PublicKey) -> (found: Option<usize>)
        ensures
            match found {
                Some(i) => i < self.stores@.len() && wallet_at(self.stores@, i as int) == id
                    && self.logs().dom().contains(id) && self.logs()[id] == self.stores@[i as int].log(),
                None => !self.logs().dom().contains(id),
            },
    {
        proof {
            use_type_invariant(self);
        }
        let mut i: usize = 0;
        while i < self.stores.len()
            invariant
                i <= self.stores@.len(),
                one_store_each(self.stores@),
                forall|j: int| 0 <= j < i ==> #[trigger] wallet_at(self.stores@, j) != id,
            decreases self.stores@.len() - i,
        {
            let here = self.stores[i].id();
            if same_key(&here, &id) {
                proof {
                    store_is_mapped(self.stores@, i as int);
                }
                return Some(i);
            }
            i += 1;
        }
        None
    }

    /// A copy of the events of a wallet.
    fn events_of(&self, id: PublicKey) -> (events: Vec<ReplicaEvent>)
        ensures
            events@ == self.log_of(id),
            only_transfers(events@),
    {
        proof {
            use_type_invariant(self);
        }
        match self.find(id) {
            Some(i) => {
                let events = self.stores[i].get_all();
                assert forall|j: int| 0 <= j < events@.len() implies !(
                #[trigger] events@[j] is KnownGroupAdded) by {
                    assert(events@[j] == event_at(self.stores@, i as int, j));
                }
                events
            },
            None => Vec::new(),
        }
    }

    /// The wallet that the events of `id` make.
    fn load_wallet(&self, id: PublicKey) -> (wallet: Result<sn_transfers::WalletReplica, NdError>)
        ensures
            wallet == self.wallet(id),
            self.log_of(id).len() == 0 ==> wallet is Ok,
            wallet matches Ok(w) ==> peers_of(w) == self.info().peer_replicas,
            wallet matches Ok(w) ==> (has_key(self.info().peer_replicas) ==> keys_at_hand(w)),
            wallet matches Ok(w) ==> pending_debit(w) == last_validated(self.log_of(id)),
            wallet matches Ok(w) ==> next_debit(w) == registered_count(self.log_of(id)),
            wallet matches Ok(w) ==> held_credits(w) == credits_in(self.log_of(id)),
            wallet matches Ok(w) ==> nano(wallet_balance(w)) == net(self.log_of(id)),
    {
        let events = self.events_of(id);
        assert(groups_in(events@) =~= Set::<PublicKeySet>::empty());
        load_wallet(id, self.info.id, self.info.key_index, self.info.peer_replicas.clone(), events)
    }

    /// The key of `keyset`, where it has one and the section has had it.
    fn find_past_key(&self, keyset: &PublicKeySet) -> (key: Result<PublicKey, TransferError>)
        ensures
            match key {
                Ok(k) => k == section_key_of(*keyset) && self.knows_key_of(*keyset),
                Err(e) => e == TransferError::UnknownSectionKey && !self.knows_key_of(*keyset),
            },
    {
        if !key_set_has_key(keyset) {
            return Err(TransferError::UnknownSectionKey);
        }
        let wanted = section_key(keyset);
        let mut i: usize = 0;
        while i < self.info.section_proof_chain.len()
            invariant
                i <= self.info.section_proof_chain@.len(),
                has_key(*keyset),
                wanted == section_key_of(*keyset),
                forall|j: int| 0 <= j < i ==> self.info.section_proof_chain@[j] != wanted,
            decreases self.info.section_proof_chain@.len() - i,
        {
            let key_in_chain = self.info.section_proof_chain[i];
            if same_key(&key_in_chain, &wanted) {
                assert(self.info.section_proof_chain@[i as int] == wanted);
                return Ok(key_in_chain);
            }
            i += 1;
        }
        Err(TransferError::UnknownSectionKey)
    }

    /// Appends an event to the store at `place`.
    fn append(&mut self, place: usize, event: ReplicaEvent)
        requires
            place < old(self).stores@.len(),
            !(event is KnownGroupAdded),
        ensures
            final(self).info() == old(self).info(),
            final(self).custody() == old(self).custody(),
            final(self).logs() == old(self).logs_with(
                wallet_at(old(self).stores@, place as int),
                event,
            ),
    {
        proof {
            use_type_invariant(&*self);
            store_is_mapped(self.stores@, place as int);
        }
        let ghost before = self.stores@;
        let mut stores: Vec<TransferStore> = Vec::new();
        std::mem::swap(&mut self.stores, &mut stores);
        let mut store = stores.remove(place);
        store.try_insert(event);
        stores.insert(place, store);
        proof {
            assert(stores@ =~= before.update(place as int, store));
            store_replaced(before, stores@, place as int, store);
            assert forall|i: int, j: int|
                0 <= i < stores@.len() && 0 <= j < stores@[i].log().len() implies !(
            #[trigger] event_at(stores@, i, j) is KnownGroupAdded) by {
                if i == place {
                    if j < before[i].log().len() {
                        assert(event_at(stores@, i, j) == event_at(before, i, j));
                    }
                } else {
                    assert(event_at(stores@, i, j) == event_at(before, i, j));
                }
            }
        }
        self.stores = stores;
    }
}

} // verus!
