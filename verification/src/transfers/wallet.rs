//! What the wallet replica of `sn_transfers` decides, and what the signer of
//! a replica signs. Every function here hands its arguments to that crate
//! and names what comes back.

use sn_data_types::{
    CreditAgreementProof, Error as NdError, Money, PublicKey, ReplicaEvent, SignatureShare,
    SignedCredit, SignedDebit, SignedTransfer, TransferAgreementProof, TransferRegistered,
};
use sn_transfers::{ReplicaSigning, WalletReplica};
use threshold_crypto::{PublicKeySet, PublicKeyShare};
use vstd::prelude::*;

verus! {

/// Whether a key set holds a key at all: one that was made of nothing holds
/// none.
pub uninterp spec fn has_key(keys: PublicKeySet) -> bool;

/// The key under which a set of replicas signs as one.
pub uninterp spec fn section_key_of(keys: PublicKeySet) -> PublicKey;

/// The key set of the section that a wallet replica belongs to.
pub uninterp spec fn peers_of(wallet: WalletReplica) -> PublicKeySet;

/// The wallet replica that a history of events makes.
pub uninterp spec fn replay(id: PublicKey, replica_id: PublicKeyShare, key_index: usize, peer_replicas: PublicKeySet, events: Seq<ReplicaEvent>) -> Result<WalletReplica, NdError>;

/// The groups of replicas that a wallet has been told of.
pub uninterp spec fn known_groups(wallet: WalletReplica) -> Set<PublicKeySet>;

/// The groups of replicas that the events tell of.
pub open spec fn groups_in(events: Seq<ReplicaEvent>) -> Set<PublicKeySet> {
    Set::new(
        |group: PublicKeySet|
            exists|i: int|
                0 <= i < events.len() && (#[trigger] events[i] matches ReplicaEvent::KnownGroupAdded(e)
                    && e.group == group),
    )
}

/// The wallet's own key set and every group it has been told of hold a
/// key: the wallet asks each of them for it when it checks a credit.
pub open spec fn keys_at_hand(wallet: WalletReplica) -> bool {
    &&& has_key(peers_of(wallet))
    &&& forall|group: PublicKeySet| #[trigger] known_groups(wallet).contains(group) ==> has_key(group)
}

/// The counter of the debit that a wallet has validated last, where it has
/// validated one.
pub uninterp spec fn pending_debit(wallet: WalletReplica) -> Option<u64>;

/// The counter that a wallet asks of the next debit to be registered.
pub uninterp spec fn next_debit(wallet: WalletReplica) -> u64;

/// The identifiers of the credits that a wallet has taken.
pub uninterp spec fn held_credits(wallet: WalletReplica) -> Set<Seq<u8>>;

/// The counter of the last debit that the events tell to be validated.
pub open spec fn last_validated(events: Seq<ReplicaEvent>) -> Option<u64>
    decreases events.len(),
{
    if events.len() == 0 {
        None
    } else {
        match events.last() {
            ReplicaEvent::TransferValidated(e) => Some(e.signed_debit.debit.id.counter),
            _ => last_validated(events.drop_last()),
        }
    }
}

/// How many debits the events tell to be registered.
pub open spec fn registered_count(events: Seq<ReplicaEvent>) -> nat
    decreases events.len(),
{
    if events.len() == 0 {
        0
    } else {
        registered_count(events.drop_last()) + (if events.last() is TransferRegistered {
            1nat
        } else {
            0nat
        })
    }
}

/// The identifiers of the credits that the events tell to be taken.
pub open spec fn credits_in(events: Seq<ReplicaEvent>) -> Set<Seq<u8>> {
    Set::new(
        |id: Seq<u8>|
            exists|i: int|
                0 <= i < events.len() && (#[trigger] events[i] matches ReplicaEvent::TransferPropagated(e)
                    && e.credit_proof.signed_credit.credit.id@ == id),
    )
}

/// What the events leave in a wallet, in the smallest unit: every credit
/// taken adds its amount, every debit registered takes its amount off.
pub open spec fn net(events: Seq<ReplicaEvent>) -> int
    decreases events.len(),
{
    if events.len() == 0 {
        0
    } else {
        net(events.drop_last()) + (match events.last() {
            ReplicaEvent::TransferPropagated(e) => crate::transfers::data_types::nano(
                e.credit_proof.signed_credit.credit.amount,
            ) as int,
            ReplicaEvent::TransferRegistered(e) => -(crate::transfers::data_types::nano(
                e.transfer_proof.signed_debit.debit.amount,
            ) as int),
            _ => 0,
        })
    }
}

/// The counter that a wallet asks of the next debit to be validated: one
/// more than that of the last, and zero for the first.
pub open spec fn following(last: Option<u64>) -> int {
    match last {
        None => 0,
        Some(counter) => counter + 1,
    }
}

/// What a wallet holds.
pub uninterp spec fn wallet_balance(wallet: WalletReplica) -> Money;

/// Whether a wallet admits a debit with its credit.
pub uninterp spec fn validation(wallet: WalletReplica, debit: SignedDebit, credit: SignedCredit) -> Result<Option<()>, NdError>;

/// Whether a debit and a credit fit each other, the wallet left aside.
pub uninterp spec fn test_validation(wallet: WalletReplica, debit: SignedDebit, credit: SignedCredit) -> Result<Option<()>, NdError>;

/// Whether a wallet registers an agreed transfer, where `past_key` is the
/// section key found for the proof.
pub uninterp spec fn registration(wallet: WalletReplica, proof: TransferAgreementProof, past_key: PublicKey) -> Result<Option<TransferRegistered>, NdError>;

/// Whether a wallet takes an agreed credit, where `past_key` is the section
/// key found for the proof.
pub uninterp spec fn propagation(wallet: WalletReplica, proof: CreditAgreementProof, past_key: PublicKey) -> Result<Option<()>, NdError>;

/// Whether a wallet takes a credit as the first money there is.
pub uninterp spec fn genesis_check(wallet: WalletReplica, proof: CreditAgreementProof, past_key: PublicKey) -> Result<Option<()>, NdError>;

/// The shares that a replica signs under a debit and its credit.
pub uninterp spec fn transfer_signatures(signing: ReplicaSigning, transfer: SignedTransfer) -> Result<Option<(SignatureShare, SignatureShare)>, NdError>;

/// The share that a replica signs under an agreed credit.
pub uninterp spec fn credit_signature(signing: ReplicaSigning, proof: CreditAgreementProof) -> Result<Option<SignatureShare>, NdError>;

/// `==` of `PublicKey`: two keys are the same key exactly where it says so.
#[verifier::external_body]
pub(crate) fn same_key(left: &PublicKey, right: &PublicKey) -> (same: bool)
    ensures
        same == (*left == *right),
{
    left == right
}

/// `!=` of `PublicKeySet`, against the set that
/// `PublicKeySet::from(Poly::zero().commitment())` makes, which is the one
/// without a key.
#[verifier::external_body]
pub(crate) fn key_set_has_key(keys: &PublicKeySet) -> (held: bool)
    ensures
        held == has_key(*keys),
{
    *keys != PublicKeySet::from(threshold_crypto::poly::Poly::zero().commitment())
}

/// `==` of `TransferAgreementProof`: two agreements are the same exactly
/// where it says so.
#[verifier::external_body]
pub(crate) fn same_agreement(left: &TransferAgreementProof, right: &TransferAgreementProof) -> (same: bool)
    ensures
        same == (*left == *right),
{
    left == right
}

/// `PublicKeySet::public_key`, held as a `PublicKey::Bls`: the key of the
/// set, a function of the set alone. A set without a key has none to give.
#[verifier::external_body]
pub(crate) fn section_key(keys: &PublicKeySet) -> (key: PublicKey)
    requires
        has_key(*keys),
    ensures
        key == section_key_of(*keys),
{
    PublicKey::Bls(keys.public_key())
}

/// `WalletReplica::from_history`: the wallet that applying the events in
/// order gives, or the error of the first event that does not apply. Every
/// validated debit becomes the pending one, every registered debit moves the
/// counter of debits on by one and takes its amount off the balance, and
/// every credit taken adds its amount and is remembered by its identifier.
/// The wallet keeps the key set it was given and the groups that the events
/// tell of, and no events always replay.
#[verifier::external_body]
pub(crate) fn load_wallet(id: PublicKey, replica_id: PublicKeyShare, key_index: usize, peer_replicas: PublicKeySet, events: Vec<ReplicaEvent>) -> (wallet: Result<WalletReplica, NdError>)
    ensures
        wallet == replay(id, replica_id, key_index, peer_replicas, events@),
        events@.len() == 0 ==> wallet is Ok,
        wallet matches Ok(w) ==> peers_of(w) == peer_replicas,
        wallet matches Ok(w) ==> known_groups(w) == groups_in(events@),
        wallet matches Ok(w) ==> pending_debit(w) == last_validated(events@),
        wallet matches Ok(w) ==> next_debit(w) == registered_count(events@),
        wallet matches Ok(w) ==> held_credits(w) == credits_in(events@),
        wallet matches Ok(w) ==> crate::transfers::data_types::nano(wallet_balance(w)) == net(events@),
{
    WalletReplica::from_history(id, replica_id, key_index, peer_replicas, events)
}

/// `WalletReplica::balance`.
#[verifier::external_body]
pub(crate) fn balance_of(wallet: &WalletReplica) -> (balance: Money)
    ensures
        balance == wallet_balance(*wallet),
{
    wallet.balance()
}

/// `WalletReplica::validate`: checks the actor's signatures, that debit and
/// credit fit each other, the order of the debit and the balance. It changes
/// nothing and is decided by the wallet and the two alone. What it admits
/// goes to another key than it comes from, credits what it debits, is more
/// than nothing, and follows the debit validated last. It answers with a
/// yes or with an error, never with nothing. It adds one to the counter of
/// the debit validated last, which must leave room for it.
#[verifier::external_body]
pub(crate) fn wallet_validate(wallet: &WalletReplica, debit: &SignedDebit, credit: &SignedCredit) -> (outcome: Result<Option<()>, NdError>)
    requires
        pending_debit(*wallet) != Some(u64::MAX),
    ensures
        outcome == validation(*wallet, *debit, *credit),
        outcome matches Ok(answer) ==> answer is Some,
        outcome matches Ok(Some(_)) ==> debit.debit.id.actor != credit.credit.recipient,
        outcome matches Ok(Some(_)) ==> credit.credit.amount == debit.debit.amount,
        outcome matches Ok(Some(_)) ==> crate::transfers::data_types::nano(debit.debit.amount) != 0,
        outcome matches Ok(Some(_)) ==> debit.debit.id.counter == following(pending_debit(*wallet)),
{
    wallet.validate(debit, credit)
}

/// `WalletReplica::test_validate_transfer`: checks only that debit and
/// credit fit each other.
#[verifier::external_body]
pub(crate) fn wallet_test_validate(wallet: &WalletReplica, debit: &SignedDebit, credit: &SignedCredit) -> (outcome: Result<Option<()>, NdError>)
    ensures
        outcome == test_validation(*wallet, *debit, *credit),
{
    wallet.test_validate_transfer(debit, credit)
}

/// `WalletReplica::register`: checks the replicas' signatures under the key
/// of the wallet's own section or under `past_key`, and that the counter of
/// the debit is the one that the wallet asks next. The event it gives holds
/// the proof it was given, and it answers with an event or with an error,
/// never with nothing. It asks the wallet's own key set for its key.
#[verifier::external_body]
pub(crate) fn wallet_register(wallet: &WalletReplica, proof: &TransferAgreementProof, past_key: PublicKey) -> (outcome: Result<Option<TransferRegistered>, NdError>)
    requires
        has_key(peers_of(*wallet)),
    ensures
        outcome == registration(*wallet, *proof, past_key),
        outcome matches Ok(answer) ==> answer is Some,
        outcome matches Ok(Some(event)) ==> event.transfer_proof == *proof,
        outcome matches Ok(Some(_)) ==> proof.signed_debit.debit.id.counter == next_debit(*wallet),
{
    wallet.register(proof, || Ok(past_key))
}

/// `WalletReplica::receive_propagated`: checks the replicas' signature under
/// the key of the wallet's own section or under `past_key`, and tells a
/// credit that the wallet holds already, for which nothing changes, from a
/// new one. It asks the wallet's own key set for its key, and every group
/// that the wallet has been told of where the proof stands under neither
/// that key nor `past_key`.
#[verifier::external_body]
pub(crate) fn wallet_receive_propagated(wallet: &WalletReplica, proof: &CreditAgreementProof, past_key: PublicKey) -> (outcome: Result<Option<()>, NdError>)
    requires
        keys_at_hand(*wallet),
    ensures
        outcome == propagation(*wallet, *proof, past_key),
        outcome matches Ok(Some(_)) ==> !held_credits(*wallet).contains(proof.signed_credit.credit.id@),
        outcome matches Ok(None) ==> held_credits(*wallet).contains(proof.signed_credit.credit.id@),
{
    wallet.receive_propagated(proof, || Ok(past_key))
}

/// `WalletReplica::genesis`: as `receive_propagated`, for a wallet that
/// holds nothing and has no debit under way. It asks the same key sets for
/// their keys.
#[verifier::external_body]
pub(crate) fn wallet_genesis(wallet: &WalletReplica, proof: &CreditAgreementProof, past_key: PublicKey) -> (outcome: Result<Option<()>, NdError>)
    requires
        keys_at_hand(*wallet),
    ensures
        outcome == genesis_check(*wallet, *proof, past_key),
{
    wallet.genesis(proof, || Ok(past_key))
}

/// `ReplicaSigning::sign_transfer`: the replica's signature shares under the
/// signed debit and the signed credit, decided by its key share and the
/// transfer alone.
#[verifier::external_body]
pub(crate) fn sign_transfer(signing: &ReplicaSigning, transfer: &SignedTransfer) -> (shares: Result<Option<(SignatureShare, SignatureShare)>, NdError>)
    ensures
        shares == transfer_signatures(*signing, *transfer),
{
    signing.sign_transfer(transfer)
}

/// `ReplicaSigning::sign_credit_proof`: the replica's signature share under
/// the proof, decided by its key share and the proof alone.
#[verifier::external_body]
pub(crate) fn sign_credit_proof(signing: &ReplicaSigning, proof: &CreditAgreementProof) -> (share: Result<Option<SignatureShare>, NdError>)
    ensures
        share == credit_signature(*signing, *proof),
{
    signing.sign_credit_proof(proof)
}

/// `sn_data_types::Error::InsufficientBalance`, the error of a debit that
/// asks for more than there is.
#[verifier::external_body]
pub(crate) fn insufficient_balance() -> NdError {
    NdError::InsufficientBalance
}

/// The error of a debit that comes out of order, as `sn_data_types::Error`
/// makes it from a message.
#[verifier::external_body]
pub(crate) fn out_of_order() -> NdError {
    NdError::from("out of order msg, the counter of debits is used up")
}

/// `sn_transfers::get_genesis`: a credit of `balance` to `id`, signed with
/// keys made for the occasion, which differ from call to call.
#[verifier::external_body]
pub(crate) fn get_genesis(balance: u64, id: PublicKey) -> (proof: Result<CreditAgreementProof, NdError>)
    ensures
        proof matches Ok(p) ==> p.signed_credit.credit.recipient == id && crate::transfers::data_types::nano(p.signed_credit.credit.amount) == balance,
{
    sn_transfers::get_genesis(balance, id)
}

} // verus!
