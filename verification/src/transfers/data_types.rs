//! The transfer types of `sn_data_types`, and what belongs to them of other
//! crates, made known to the verifier. Events, proofs, debits and credits are
//! read field by field; keys, signatures and amounts are carried through as
//! they are.

use vstd::prelude::*;

verus! {

/// `sn_data_types::PublicKey`: the key of a wallet or of a section, carried through.
#[verifier::external_type_specification]
#[verifier::external_body]
pub struct ExPublicKey(sn_data_types::PublicKey);

/// `sn_data_types::Signature`, carried through.
#[verifier::external_type_specification]
#[verifier::external_body]
pub struct ExSignature(sn_data_types::Signature);

/// `sn_data_types::Money`: an amount, carried through.
#[verifier::external_type_specification]
#[verifier::external_body]
pub struct ExMoney(sn_data_types::Money);

/// `sn_data_types::Error`, carried through.
#[verifier::external_type_specification]
#[verifier::external_body]
pub struct ExError(sn_data_types::Error);

/// `threshold_crypto::PublicKeySet`: the keys of a section, carried through.
#[verifier::external_type_specification]
#[verifier::external_body]
pub struct ExPublicKeySet(threshold_crypto::PublicKeySet);

/// `threshold_crypto::PublicKeyShare`: the key of one replica, carried through.
#[verifier::external_type_specification]
#[verifier::external_body]
pub struct ExPublicKeyShare(threshold_crypto::PublicKeyShare);

/// `threshold_crypto::PublicKey`, carried through.
#[verifier::external_type_specification]
#[verifier::external_body]
pub struct ExBlsPublicKey(threshold_crypto::PublicKey);

/// `threshold_crypto::SignatureShare`, carried through.
#[verifier::external_type_specification]
#[verifier::external_body]
pub struct ExBlsSignatureShare(threshold_crypto::SignatureShare);

/// `sn_data_types::SignatureShare`: a share and the place of its key.
#[verifier::external_type_specification]
pub struct ExSignatureShare(sn_data_types::SignatureShare);

/// `crdts::Dot`: an actor and its counter, the identifier of a debit.
#[verifier::external_type_specification]
#[verifier::reject_recursive_types(A)]
pub struct ExDot<A>(crdts::Dot<A>);

/// `sn_data_types::Debit`.
#[verifier::external_type_specification]
pub struct ExDebit(sn_data_types::Debit);

/// `sn_data_types::Credit`.
#[verifier::external_type_specification]
pub struct ExCredit(sn_data_types::Credit);

/// `sn_data_types::SignedDebit`.
#[verifier::external_type_specification]
pub struct ExSignedDebit(sn_data_types::SignedDebit);

/// `sn_data_types::SignedCredit`.
#[verifier::external_type_specification]
pub struct ExSignedCredit(sn_data_types::SignedCredit);

/// `sn_data_types::SignedTransfer`.
#[verifier::external_type_specification]
pub struct ExSignedTransfer(sn_data_types::SignedTransfer);

/// `sn_data_types::TransferAgreementProof`.
#[verifier::external_type_specification]
pub struct ExTransferAgreementProof(sn_data_types::TransferAgreementProof);

/// `sn_data_types::CreditAgreementProof`.
#[verifier::external_type_specification]
pub struct ExCreditAgreementProof(sn_data_types::CreditAgreementProof);

/// `sn_data_types::TransferValidated`.
#[verifier::external_type_specification]
pub struct ExTransferValidated(sn_data_types::TransferValidated);

/// `sn_data_types::TransferRegistered`.
#[verifier::external_type_specification]
pub struct ExTransferRegistered(sn_data_types::TransferRegistered);

/// `sn_data_types::TransferPropagated`.
#[verifier::external_type_specification]
pub struct ExTransferPropagated(sn_data_types::TransferPropagated);

/// `sn_data_types::KnownGroupAdded`.
#[verifier::external_type_specification]
pub struct ExKnownGroupAdded(sn_data_types::KnownGroupAdded);

/// `sn_data_types::ReplicaEvent`.
#[verifier::external_type_specification]
pub struct ExReplicaEvent(sn_data_types::ReplicaEvent);

/// `sn_transfers::WalletReplica`: the state of a wallet, carried through.
#[verifier::external_type_specification]
#[verifier::external_body]
pub struct ExWalletReplica(sn_transfers::WalletReplica);

/// `sn_transfers::ReplicaSigning`: the signer of a replica, carried through.
#[verifier::external_type_specification]
#[verifier::external_body]
pub struct ExReplicaSigning(sn_transfers::ReplicaSigning);

/// `Clone` as derived for `ReplicaEvent`: the copy is the event.
pub assume_specification[ <sn_data_types::ReplicaEvent as Clone>::clone ](
    event: &sn_data_types::ReplicaEvent,
) -> (copy: sn_data_types::ReplicaEvent)
    ensures
        copy == *event,
;

/// `Clone` as derived for `TransferValidated`: the copy is the event.
pub assume_specification[ <sn_data_types::TransferValidated as Clone>::clone ](
    event: &sn_data_types::TransferValidated,
) -> (copy: sn_data_types::TransferValidated)
    ensures
        copy == *event,
;

/// `Clone` as derived for `TransferRegistered`: the copy is the event.
pub assume_specification[ <sn_data_types::TransferRegistered as Clone>::clone ](
    event: &sn_data_types::TransferRegistered,
) -> (copy: sn_data_types::TransferRegistered)
    ensures
        copy == *event,
;

/// `Clone` as derived for `TransferPropagated`: the copy is the event.
pub assume_specification[ <sn_data_types::TransferPropagated as Clone>::clone ](
    event: &sn_data_types::TransferPropagated,
) -> (copy: sn_data_types::TransferPropagated)
    ensures
        copy == *event,
;

/// `Clone` as derived for `CreditAgreementProof`: the copy is the proof.
pub assume_specification[ <sn_data_types::CreditAgreementProof as Clone>::clone ](
    proof: &sn_data_types::CreditAgreementProof,
) -> (copy: sn_data_types::CreditAgreementProof)
    ensures
        copy == *proof,
;

/// `Clone` as derived for `PublicKeySet`: the copy is the key set.
pub assume_specification[ <threshold_crypto::PublicKeySet as Clone>::clone ](
    keys: &threshold_crypto::PublicKeySet,
) -> (copy: threshold_crypto::PublicKeySet)
    ensures
        copy == *keys,
;

/// An amount as a count of its smallest unit.
pub uninterp spec fn nano(amount: sn_data_types::Money) -> u64;

/// `Money::as_nano`: the amount as a count of its smallest unit.
pub assume_specification[ sn_data_types::Money::as_nano ](amount: sn_data_types::Money) -> (units: u64)
    ensures
        units == nano(amount),
;

} // verus!
