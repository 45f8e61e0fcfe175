use safe_vault::transfers::replicas::{
    genesis_event, is_group_event, propagated_event, registered_event, validated_event,
    ReplicaInfo, Replicas, TransferError, GENESIS_BALANCE,
};
use safe_vault::transfers::store::TransferStore;
use sn_data_types::{
    Credit, CreditAgreementProof, Debit, DebitId, Error as NdError, KnownGroupAdded, Money,
    PublicKey, ReplicaEvent, Signature, SignatureShare, SignedCredit, SignedDebit, SignedTransfer,
    TransferAgreementProof, TransferRegistered, TransferValidated,
};
use sn_transfers::ReplicaSigning;
use safe_vault::transfers::framing;
use threshold_crypto::poly::Poly;
use threshold_crypto::{PublicKeySet, SecretKey, SecretKeySet, SecretKeyShare};

struct Section {
    keys: SecretKeySet,
    share: SecretKeyShare,
}

fn new_section() -> Section {
    // With a threshold of zero one share signs for the whole section.
    let keys = SecretKeySet::random(0, &mut rand::thread_rng());
    let share = keys.secret_key_share(0);
    Section { keys, share }
}

fn info_of(section: &Section) -> ReplicaInfo {
    let peer_replicas = section.keys.public_keys();
    ReplicaInfo {
        id: section.share.public_key_share(),
        key_index: 0,
        peer_replicas: peer_replicas.clone(),
        section_proof_chain: vec![PublicKey::Bls(peer_replicas.public_key())],
        signing: ReplicaSigning::new(section.share.clone(), 0, peer_replicas),
    }
}

fn genesis_id(section: &Section) -> PublicKey {
    PublicKey::Bls(section.keys.public_keys().public_key())
}

fn random_wallet() -> PublicKey {
    PublicKey::Bls(SecretKey::random().public_key())
}

fn sign(section: &Section, bytes: Vec<u8>) -> Signature {
    Signature::Bls(section.share.sign(bytes).0)
}

fn genesis_proof(section: &Section, amount: u64) -> CreditAgreementProof {
    let credit = Credit {
        id: Default::default(),
        amount: Money::from_nano(amount),
        recipient: genesis_id(section),
        msg: "genesis".to_string(),
    };
    let actor_signature = sign(section, bincode::serialize(&credit).unwrap());
    let signed_credit = SignedCredit { credit, actor_signature };
    let debiting_replicas_sig = sign(section, bincode::serialize(&signed_credit).unwrap());
    CreditAgreementProof {
        signed_credit,
        debiting_replicas_sig,
        debiting_replicas_keys: section.keys.public_keys(),
    }
}

/// A replica that has custody of the section's own wallet, which holds all money.
fn founded(section: &Section) -> Replicas {
    let mut replicas = Replicas::new(info_of(section));
    let id = genesis_id(section);
    replicas.take_custody(id);
    let proof = genesis_proof(section, GENESIS_BALANCE);
    assert_eq!(replicas.genesis(&proof, id), Ok(None));
    replicas
}

fn transfer(section: &Section, to: PublicKey, amount: u64, counter: u64) -> SignedTransfer {
    let debit = Debit {
        id: DebitId { actor: genesis_id(section), counter },
        amount: Money::from_nano(amount),
    };
    let credit = Credit {
        id: debit.credit_id().unwrap(),
        amount: Money::from_nano(amount),
        recipient: to,
        msg: String::new(),
    };
    let debit_signature = sign(section, bincode::serialize(&debit).unwrap());
    let credit_signature = sign(section, bincode::serialize(&credit).unwrap());
    SignedTransfer {
        debit: SignedDebit { debit, actor_signature: debit_signature },
        credit: SignedCredit { credit, actor_signature: credit_signature },
    }
}

fn agreement(section: &Section, event: &TransferValidated) -> TransferAgreementProof {
    let keys = section.keys.public_keys();
    let debit_sig = keys
        .combine_signatures(vec![(event.replica_debit_sig.index, &event.replica_debit_sig.share)])
        .unwrap();
    let credit_sig = keys
        .combine_signatures(vec![(event.replica_credit_sig.index, &event.replica_credit_sig.share)])
        .unwrap();
    TransferAgreementProof {
        signed_debit: event.signed_debit.clone(),
        signed_credit: event.signed_credit.clone(),
        debit_sig: Signature::Bls(debit_sig),
        credit_sig: Signature::Bls(credit_sig),
        debiting_replicas_keys: event.replicas.clone(),
    }
}

fn nano_of(balance: Result<Option<Money>, TransferError>) -> u64 {
    balance.unwrap().unwrap().as_nano()
}

/// Validates and registers a debit of `amount` to `to`, and hands back the agreement.
fn debit_cycle(section: &Section, replicas: &mut Replicas, to: PublicKey, amount: u64, counter: u64)
    -> TransferAgreementProof {
    let validated = replicas.validate(transfer(section, to, amount, counter)).unwrap().unwrap();
    let proof = agreement(section, &validated);
    let registered = replicas.register(&proof).unwrap().unwrap();
    assert_eq!(registered.transfer_proof, proof);
    proof
}

#[test]
fn genesis_credits_all_money_to_the_section() {
    let section = new_section();
    let replicas = founded(&section);
    let id = genesis_id(&section);
    let history = replicas.history(id).unwrap().unwrap();
    assert_eq!(history.len(), 1);
    match &history[0] {
        ReplicaEvent::TransferPropagated(event) => {
            assert_eq!(event.amount().as_nano(), 4_294_967_295_000_000_000);
            assert_eq!(event.recipient(), id);
            assert_eq!(event.crediting_replica_keys, id);
            assert_eq!(event.crediting_replica_sig.index, 0);
        }
        _ => unreachable!(),
    }
    assert_eq!(nano_of(replicas.balance(id)), 4_294_967_295_000_000_000);
    assert_eq!(GENESIS_BALANCE, (u32::MAX as u64) * 1_000_000_000);
}

#[test]
fn initiate_without_events_founds_or_leaves_the_log_alone() {
    let section = new_section();
    let mut replicas = Replicas::new(info_of(&section));
    let id = genesis_id(&section);
    replicas.take_custody(id);
    let outcome = replicas.initiate(&[]);
    let history = replicas.history(id).unwrap().unwrap();
    match outcome {
        Ok(None) => {
            assert!(history.len() <= 1);
            for event in history.iter() {
                match event {
                    ReplicaEvent::TransferPropagated(event) => {
                        assert_eq!(event.amount().as_nano(), GENESIS_BALANCE);
                        assert_eq!(event.recipient(), id);
                    }
                    _ => unreachable!(),
                }
            }
        }
        Ok(Some(())) => unreachable!(),
        Err(_) => assert!(history.is_empty()),
    }
}

#[test]
fn initiate_without_events_takes_custody_of_the_section_wallet() {
    let section = new_section();
    let mut replicas = Replicas::new(info_of(&section));
    let id = genesis_id(&section);
    assert_eq!(replicas.founder(), Ok(id));
    assert!(!replicas.has_custody(id));
    let outcome = replicas.initiate(&[]);
    assert!(replicas.has_custody(id));
    let all = replicas.all_events().unwrap().unwrap();
    match outcome {
        Ok(None) => assert!(all.len() <= 1),
        Ok(Some(())) => unreachable!(),
        Err(_) => assert!(all.is_empty()),
    }
    assert_eq!(replicas.history(id).unwrap().unwrap(), all);
}

#[test]
fn initiate_without_events_leaves_a_founded_wallet_alone() {
    let section = new_section();
    let mut replicas = founded(&section);
    let id = genesis_id(&section);
    let before = replicas.history(id).unwrap().unwrap();
    assert_eq!(replicas.initiate(&[]), Err(TransferError::InvalidGenesis));
    assert_eq!(replicas.history(id).unwrap().unwrap(), before);
    assert_eq!(nano_of(replicas.balance(id)), GENESIS_BALANCE);
}

#[test]
fn genesis_can_only_be_the_first() {
    let section = new_section();
    let mut replicas = founded(&section);
    let id = genesis_id(&section);
    let again = genesis_proof(&section, 5);
    assert_eq!(replicas.genesis(&again, id), Err(TransferError::InvalidGenesis));
    assert_eq!(replicas.history(id).unwrap().unwrap().len(), 1);
    assert_eq!(nano_of(replicas.balance(id)), GENESIS_BALANCE);
}

#[test]
fn genesis_without_custody_is_wallet_not_found() {
    let section = new_section();
    let mut replicas = Replicas::new(info_of(&section));
    let proof = genesis_proof(&section, GENESIS_BALANCE);
    assert_eq!(replicas.genesis(&proof, genesis_id(&section)), Err(TransferError::WalletNotFound));
}

#[test]
fn genesis_signed_by_strangers_is_invalid() {
    let section = new_section();
    let strangers = new_section();
    let mut replicas = Replicas::new(info_of(&section));
    let id = genesis_id(&section);
    replicas.take_custody(id);
    let mut proof = genesis_proof(&section, GENESIS_BALANCE);
    proof.debiting_replicas_sig = sign(&strangers, bincode::serialize(&proof.signed_credit).unwrap());
    assert_eq!(replicas.genesis(&proof, id), Err(TransferError::InvalidGenesis));
    assert!(replicas.history(id).unwrap().unwrap().is_empty());
}

#[test]
fn debit_cycle_moves_money() {
    let section = new_section();
    let mut replicas = founded(&section);
    let genesis = genesis_id(&section);
    let wallet_b = random_wallet();
    replicas.take_custody(wallet_b);

    let signed_transfer = transfer(&section, wallet_b, 1000, 0);
    let validated = replicas.validate(signed_transfer.clone()).unwrap().unwrap();
    assert_eq!(validated.signed_debit, signed_transfer.debit);
    assert_eq!(validated.signed_credit, signed_transfer.credit);
    assert_eq!(validated.replicas, section.keys.public_keys());
    assert_eq!(validated.replica_debit_sig.index, 0);
    // Not registered yet: the balance stands.
    assert_eq!(nano_of(replicas.balance(genesis)), GENESIS_BALANCE);
    assert_eq!(replicas.history(genesis).unwrap().unwrap().len(), 2);

    let proof = agreement(&section, &validated);
    let registered = replicas.register(&proof).unwrap().unwrap();
    assert_eq!(registered, TransferRegistered { transfer_proof: proof.clone() });
    assert_eq!(nano_of(replicas.balance(genesis)), GENESIS_BALANCE - 1000);
    assert_eq!(nano_of(replicas.balance(wallet_b)), 0);

    let propagated = replicas.receive_propagated(&proof.credit_proof()).unwrap().unwrap();
    assert_eq!(propagated.credit_proof, proof.credit_proof());
    assert_eq!(propagated.crediting_replica_keys, genesis);
    assert_eq!(nano_of(replicas.balance(wallet_b)), 1000);
    assert_eq!(replicas.history(wallet_b).unwrap().unwrap().len(), 1);
    assert_eq!(replicas.history(genesis).unwrap().unwrap().len(), 3);
}

#[test]
fn double_spend_is_rejected() {
    let section = new_section();
    let mut replicas = founded(&section);
    let genesis = genesis_id(&section);
    let wallet_b = random_wallet();
    let _ = debit_cycle(&section, &mut replicas, wallet_b, 1000, 0);
    let before = replicas.history(genesis).unwrap().unwrap();

    let second = transfer(&section, random_wallet(), 500, 0);
    match replicas.validate(second) {
        Err(TransferError::Validation(_)) => (),
        _ => unreachable!(),
    }
    assert_eq!(nano_of(replicas.balance(genesis)), GENESIS_BALANCE - 1000);
    assert_eq!(replicas.history(genesis).unwrap().unwrap(), before);
}

#[test]
fn credit_is_taken_once() {
    let section = new_section();
    let mut replicas = founded(&section);
    let wallet_b = random_wallet();
    replicas.take_custody(wallet_b);
    let proof = debit_cycle(&section, &mut replicas, wallet_b, 1000, 0);
    let credit_proof = proof.credit_proof();

    assert!(replicas.receive_propagated(&credit_proof).unwrap().is_some());
    let log = replicas.history(wallet_b).unwrap().unwrap();
    assert_eq!(replicas.receive_propagated(&credit_proof), Ok(None));
    assert_eq!(replicas.receive_propagated(&credit_proof), Ok(None));
    assert_eq!(nano_of(replicas.balance(wallet_b)), 1000);
    assert_eq!(replicas.history(wallet_b).unwrap().unwrap(), log);
    assert_eq!(log.len(), 1);
}

#[test]
fn debit_beyond_the_balance_is_rejected() {
    let section = new_section();
    let mut replicas = Replicas::new(info_of(&section));
    let genesis = genesis_id(&section);
    replicas.take_custody(genesis);
    assert_eq!(replicas.genesis(&genesis_proof(&section, 10), genesis), Ok(None));
    assert_eq!(
        replicas.validate(transfer(&section, random_wallet(), 11, 0)),
        Err(TransferError::Validation(NdError::InsufficientBalance))
    );
    assert_eq!(replicas.history(genesis).unwrap().unwrap().len(), 1);
    assert!(replicas.validate(transfer(&section, random_wallet(), 10, 0)).unwrap().is_some());
}

#[test]
fn forged_debit_is_rejected() {
    let section = new_section();
    let mut replicas = founded(&section);
    let mut forged = transfer(&section, random_wallet(), 1000, 0);
    forged.debit.debit.amount = Money::from_nano(2000);
    assert_eq!(
        replicas.validate(forged),
        Err(TransferError::Validation(NdError::InvalidSignature))
    );
}

#[test]
fn operations_without_custody_are_wallet_not_found() {
    let section = new_section();
    let mut keeper = founded(&section);
    let wallet_b = random_wallet();
    let proof = debit_cycle(&section, &mut keeper, wallet_b, 7, 0);

    let mut replicas = Replicas::new(info_of(&section));
    assert_eq!(
        replicas.validate(transfer(&section, wallet_b, 7, 0)),
        Err(TransferError::WalletNotFound)
    );
    assert_eq!(
        replicas.test_validate_transfer(transfer(&section, wallet_b, 7, 0)),
        Err(TransferError::WalletNotFound)
    );
    assert_eq!(replicas.register(&proof), Err(TransferError::WalletNotFound));
    assert_eq!(
        replicas.receive_propagated(&proof.credit_proof()),
        Err(TransferError::WalletNotFound)
    );
    assert!(!replicas.has_custody(wallet_b));
    // Queries answer for any wallet.
    assert_eq!(replicas.history(wallet_b), Ok(Some(Vec::new())));
    assert_eq!(nano_of(replicas.balance(wallet_b)), 0);
}

#[test]
fn proof_under_a_key_the_section_never_had_is_unknown() {
    let section = new_section();
    let mut keeper = founded(&section);
    let wallet_b = random_wallet();
    let validated = keeper.validate(transfer(&section, wallet_b, 9, 0)).unwrap().unwrap();
    let proof = agreement(&section, &validated);

    // A replica whose chain lacks the key that signed.
    let elsewhere = new_section();
    let mut info = info_of(&section);
    info.section_proof_chain = vec![genesis_id(&elsewhere)];
    let mut replicas = Replicas::new(info);
    replicas.take_custody(genesis_id(&section));
    replicas.take_custody(wallet_b);
    assert_eq!(replicas.register(&proof), Err(TransferError::UnknownSectionKey));
    assert_eq!(
        replicas.receive_propagated(&proof.credit_proof()),
        Err(TransferError::UnknownSectionKey)
    );
    assert!(replicas.history(wallet_b).unwrap().unwrap().is_empty());
}

#[test]
fn credit_from_an_earlier_section_key_is_taken() {
    let old_section = new_section();
    let mut keeper = founded(&old_section);
    let wallet_b = random_wallet();
    let proof = debit_cycle(&old_section, &mut keeper, wallet_b, 40, 0);

    // The section has moved on to new keys and remembers the old one.
    let section = new_section();
    let mut info = info_of(&section);
    info.section_proof_chain = vec![genesis_id(&old_section), genesis_id(&section)];
    let mut replicas = Replicas::new(info);
    replicas.take_custody(wallet_b);
    let event = replicas.receive_propagated(&proof.credit_proof()).unwrap().unwrap();
    assert_eq!(event.crediting_replica_keys, genesis_id(&section));
    assert_eq!(nano_of(replicas.balance(wallet_b)), 40);
}

#[test]
fn credit_with_a_bad_signature_is_rejected() {
    let section = new_section();
    let mut replicas = founded(&section);
    let wallet_b = random_wallet();
    replicas.take_custody(wallet_b);
    let proof = debit_cycle(&section, &mut replicas, wallet_b, 1000, 0);
    let mut credit_proof = proof.credit_proof();
    credit_proof.debiting_replicas_sig = proof.debit_sig.clone();
    assert_eq!(
        replicas.receive_propagated(&credit_proof),
        Err(TransferError::Validation(NdError::InvalidSignature))
    );
    assert_eq!(nano_of(replicas.balance(wallet_b)), 0);
}

#[test]
fn agreement_registered_already_is_answered_with_nothing() {
    let section = new_section();
    let mut replicas = founded(&section);
    let genesis = genesis_id(&section);
    let proof = debit_cycle(&section, &mut replicas, random_wallet(), 1000, 0);
    let log = replicas.history(genesis).unwrap().unwrap();
    assert_eq!(replicas.register(&proof), Ok(None));
    assert_eq!(replicas.register(&proof), Ok(None));
    assert_eq!(replicas.history(genesis).unwrap().unwrap(), log);
    assert_eq!(nano_of(replicas.balance(genesis)), GENESIS_BALANCE - 1000);
    // The next debit goes through.
    let _ = debit_cycle(&section, &mut replicas, random_wallet(), 500, 1);
    assert_eq!(nano_of(replicas.balance(genesis)), GENESIS_BALANCE - 1500);
}

#[test]
fn register_out_of_order_is_rejected() {
    let section = new_section();
    let mut replicas = founded(&section);
    let genesis = genesis_id(&section);
    let first = replicas.validate(transfer(&section, random_wallet(), 10, 0)).unwrap().unwrap();
    let second = replicas.validate(transfer(&section, random_wallet(), 20, 1)).unwrap().unwrap();
    let log = replicas.history(genesis).unwrap().unwrap();
    // The second debit cannot be registered before the first.
    assert_eq!(
        replicas.register(&agreement(&section, &second)),
        Err(TransferError::Validation(NdError::InvalidOperation))
    );
    assert_eq!(replicas.history(genesis).unwrap().unwrap(), log);
    assert!(replicas.register(&agreement(&section, &first)).unwrap().is_some());
    assert!(replicas.register(&agreement(&section, &second)).unwrap().is_some());
    assert_eq!(nano_of(replicas.balance(genesis)), GENESIS_BALANCE - 30);
}

#[test]
fn test_validation_appends_without_handing_back() {
    let section = new_section();
    let mut replicas = founded(&section);
    let genesis = genesis_id(&section);
    let signed_transfer = transfer(&section, random_wallet(), 3, 0);
    assert_eq!(replicas.test_validate_transfer(signed_transfer.clone()), Ok(None));
    let history = replicas.history(genesis).unwrap().unwrap();
    assert_eq!(history.len(), 2);
    match &history[1] {
        ReplicaEvent::TransferValidated(event) => {
            assert_eq!(event.signed_debit, signed_transfer.debit);
            assert_eq!(event.signed_credit, signed_transfer.credit);
        }
        _ => unreachable!(),
    }
    // Sender and recipient the same: refused, nothing appended.
    let to_self = transfer(&section, genesis, 3, 1);
    assert!(matches!(
        replicas.test_validate_transfer(to_self),
        Err(TransferError::Validation(_))
    ));
    assert_eq!(replicas.history(genesis).unwrap().unwrap().len(), 2);
}

#[test]
fn initiate_replays_a_history() {
    let section = new_section();
    let mut source = founded(&section);
    let genesis = genesis_id(&section);
    let wallet_b = random_wallet();
    source.take_custody(wallet_b);
    let proof = debit_cycle(&section, &mut source, wallet_b, 1000, 0);
    assert!(source.receive_propagated(&proof.credit_proof()).unwrap().is_some());
    let events = source.all_events().unwrap().unwrap();
    assert_eq!(events.len(), 4);

    let mut replicas = Replicas::new(info_of(&section));
    replicas.take_custody(wallet_b);
    replicas.take_custody(genesis);
    assert_eq!(replicas.initiate(&events), Ok(None));
    assert_eq!(replicas.history(genesis), source.history(genesis));
    assert_eq!(replicas.history(wallet_b), source.history(wallet_b));
    assert_eq!(nano_of(replicas.balance(genesis)), GENESIS_BALANCE - 1000);
    assert_eq!(nano_of(replicas.balance(wallet_b)), 1000);
    // Wallet after wallet, in the order of custody.
    let all = replicas.all_events().unwrap().unwrap();
    assert_eq!(all.len(), 4);
    assert_eq!(all[0], events[3]);
    assert_eq!(&all[1..], &events[..3]);
}

#[test]
fn initiate_appends_nothing_where_a_wallet_is_not_in_custody() {
    let section = new_section();
    let mut source = founded(&section);
    let genesis = genesis_id(&section);
    let wallet_b = random_wallet();
    source.take_custody(wallet_b);
    let proof = debit_cycle(&section, &mut source, wallet_b, 1000, 0);
    assert!(source.receive_propagated(&proof.credit_proof()).unwrap().is_some());
    let of_genesis = source.history(genesis).unwrap().unwrap();
    let of_b = source.history(wallet_b).unwrap().unwrap();
    let events = vec![of_genesis[0].clone(), of_b[0].clone(), of_genesis[1].clone()];

    let mut replicas = Replicas::new(info_of(&section));
    replicas.take_custody(genesis);
    assert_eq!(replicas.initiate(&events), Err(TransferError::WalletNotFound));
    assert!(replicas.history(genesis).unwrap().unwrap().is_empty());
    assert!(replicas.history(wallet_b).unwrap().unwrap().is_empty());
    replicas.take_custody(wallet_b);
    assert_eq!(replicas.initiate(&events), Ok(None));
    assert_eq!(replicas.history(genesis).unwrap().unwrap().len(), 2);
    assert_eq!(replicas.history(wallet_b).unwrap().unwrap(), of_b);
}

#[test]
fn group_events_are_told_apart() {
    let section = new_section();
    let replicas = founded(&section);
    let event = replicas.history(genesis_id(&section)).unwrap().unwrap().remove(0);
    assert!(!is_group_event(&event));
    let group = ReplicaEvent::KnownGroupAdded(KnownGroupAdded { group: section.keys.public_keys() });
    assert!(is_group_event(&group));
}

#[test]
fn custody_is_taken_once() {
    let section = new_section();
    let mut replicas = founded(&section);
    let genesis = genesis_id(&section);
    assert!(replicas.has_custody(genesis));
    replicas.take_custody(genesis);
    assert_eq!(replicas.history(genesis).unwrap().unwrap().len(), 1);
    assert_eq!(replicas.all_events().unwrap().unwrap().len(), 1);
}

#[test]
fn replica_keys_are_replaced() {
    let section = new_section();
    let mut replicas = founded(&section);
    assert_eq!(replicas.replicas_pk_set(), section.keys.public_keys());
    let next = new_section();
    replicas.update_replica_keys(info_of(&next));
    assert_eq!(replicas.replicas_pk_set(), next.keys.public_keys());
    assert_eq!(replicas.history(genesis_id(&section)).unwrap().unwrap().len(), 1);
}

#[test]
fn store_keeps_events_in_order() {
    let section = new_section();
    let mut source = founded(&section);
    let genesis = genesis_id(&section);
    let _ = debit_cycle(&section, &mut source, random_wallet(), 1, 0);
    let events = source.history(genesis).unwrap().unwrap();
    let mut store = TransferStore::new(genesis);
    assert_eq!(store.id(), genesis);
    assert!(store.get_all().is_empty());
    for event in events.iter() {
        store.try_insert(event.clone());
    }
    assert_eq!(store.get_all(), events);
}

fn share_of(section: &Section, message: &[u8]) -> SignatureShare {
    SignatureShare { index: 0, share: section.share.sign(message) }
}

#[test]
fn validated_event_follows_wallet_and_signer() {
    let section = new_section();
    let signed_transfer = transfer(&section, random_wallet(), 5, 0);
    let keys = section.keys.public_keys();
    let shares = (share_of(&section, b"debit"), share_of(&section, b"credit"));

    let refused = validated_event(
        signed_transfer.clone(),
        Err(NdError::InsufficientBalance),
        Ok(Some(shares.clone())),
        keys.clone(),
    );
    assert_eq!(refused, Err(TransferError::Validation(NdError::InsufficientBalance)));
    let unchanged = validated_event(signed_transfer.clone(), Ok(None), Ok(Some(shares.clone())), keys.clone());
    assert_eq!(unchanged, Ok(None));
    let unsigned = validated_event(signed_transfer.clone(), Ok(Some(())), Ok(None), keys.clone());
    assert_eq!(unsigned, Ok(None));
    let failed = validated_event(
        signed_transfer.clone(),
        Ok(Some(())),
        Err(NdError::NetworkOther("Could not serialise debit".to_string())),
        keys.clone(),
    );
    assert_eq!(
        failed,
        Err(TransferError::Validation(NdError::NetworkOther("Could not serialise debit".to_string())))
    );
    let event = validated_event(signed_transfer.clone(), Ok(Some(())), Ok(Some(shares.clone())), keys.clone())
        .unwrap()
        .unwrap();
    assert_eq!(
        event,
        TransferValidated {
            signed_debit: signed_transfer.debit,
            signed_credit: signed_transfer.credit,
            replica_debit_sig: shares.0,
            replica_credit_sig: shares.1,
            replicas: keys,
        }
    );
}

#[test]
fn registered_event_follows_the_wallet() {
    let section = new_section();
    let mut replicas = founded(&section);
    let proof = debit_cycle(&section, &mut replicas, random_wallet(), 5, 0);
    let event = TransferRegistered { transfer_proof: proof };
    assert_eq!(registered_event(Ok(Some(event.clone()))), Ok(Some(event)));
    assert_eq!(registered_event(Ok(None)), Ok(None));
    assert_eq!(
        registered_event(Err(NdError::InvalidOperation)),
        Err(TransferError::Validation(NdError::InvalidOperation))
    );
}

#[test]
fn propagated_event_follows_wallet_and_signer() {
    let section = new_section();
    let proof = genesis_proof(&section, 77);
    let key = genesis_id(&section);
    let share = share_of(&section, b"proof");

    assert_eq!(
        propagated_event(&proof, Err(NdError::InvalidSignature), Ok(Some(share.clone())), key),
        Err(TransferError::Validation(NdError::InvalidSignature))
    );
    assert_eq!(propagated_event(&proof, Ok(None), Ok(Some(share.clone())), key), Ok(None));
    assert_eq!(
        propagated_event(&proof, Ok(Some(())), Ok(None), key),
        Err(TransferError::InvalidMessage)
    );
    assert_eq!(
        propagated_event(&proof, Ok(Some(())), Err(NdError::InvalidSignature), key),
        Err(TransferError::Validation(NdError::InvalidSignature))
    );
    let event = propagated_event(&proof, Ok(Some(())), Ok(Some(share.clone())), key).unwrap().unwrap();
    assert_eq!(event.credit_proof, proof);
    assert_eq!(event.crediting_replica_sig, share);
    assert_eq!(event.crediting_replica_keys, key);
}

#[test]
fn genesis_event_follows_wallet_and_signer() {
    let section = new_section();
    let proof = genesis_proof(&section, 77);
    let key = genesis_id(&section);
    let share = share_of(&section, b"proof");

    assert_eq!(
        genesis_event(&proof, Err(NdError::InvalidOperation), Ok(Some(share.clone())), key),
        Err(TransferError::InvalidGenesis)
    );
    assert_eq!(genesis_event(&proof, Ok(Some(())), Ok(None), key), Ok(None));
    assert_eq!(
        genesis_event(&proof, Ok(Some(())), Err(NdError::InvalidSignature), key),
        Err(TransferError::Validation(NdError::InvalidSignature))
    );
    // A credit that the wallet holds already is not taken again.
    assert_eq!(genesis_event(&proof, Ok(None), Ok(Some(share.clone())), key), Ok(None));
    let event = genesis_event(&proof, Ok(Some(())), Ok(Some(share.clone())), key).unwrap().unwrap();
    assert_eq!(event.credit_proof, proof);
    assert_eq!(event.crediting_replica_sig, share);
    assert_eq!(event.crediting_replica_keys, key);
}

#[test]
fn wallet_with_its_last_debit_validated_takes_no_other() {
    let section = new_section();
    let mut replicas = founded(&section);
    let genesis = genesis_id(&section);
    let last = transfer(&section, random_wallet(), 1, u64::MAX);
    let shares = (share_of(&section, b"debit"), share_of(&section, b"credit"));
    let event = validated_event(last, Ok(Some(())), Ok(Some(shares)), section.keys.public_keys())
        .unwrap()
        .unwrap();
    assert_eq!(replicas.initiate(&[ReplicaEvent::TransferValidated(event)]), Ok(None));
    let before = replicas.history(genesis).unwrap().unwrap();
    assert_eq!(before.len(), 2);
    for counter in [0, 1, u64::MAX] {
        match replicas.validate(transfer(&section, random_wallet(), 1, counter)) {
            Err(TransferError::Validation(NdError::NetworkOther(_))) => (),
            _ => unreachable!(),
        }
    }
    assert_eq!(replicas.history(genesis).unwrap().unwrap(), before);
}

#[test]
fn debits_follow_each_other() {
    let section = new_section();
    let mut replicas = founded(&section);
    let genesis = genesis_id(&section);
    // The first debit of a wallet has the counter zero.
    assert!(matches!(
        replicas.validate(transfer(&section, random_wallet(), 1, 1)),
        Err(TransferError::Validation(_))
    ));
    let _ = debit_cycle(&section, &mut replicas, random_wallet(), 10, 0);
    // A gap is refused, the next counter is taken.
    assert!(matches!(
        replicas.validate(transfer(&section, random_wallet(), 1, 2)),
        Err(TransferError::Validation(_))
    ));
    let _ = debit_cycle(&section, &mut replicas, random_wallet(), 20, 1);
    let _ = debit_cycle(&section, &mut replicas, random_wallet(), 30, 2);
    assert_eq!(nano_of(replicas.balance(genesis)), GENESIS_BALANCE - 60);
    assert_eq!(replicas.history(genesis).unwrap().unwrap().len(), 7);
}

#[test]
fn balance_is_what_the_history_replays_to() {
    let section = new_section();
    let mut replicas = founded(&section);
    let genesis = genesis_id(&section);
    let wallet_b = random_wallet();
    replicas.take_custody(wallet_b);
    let proof = debit_cycle(&section, &mut replicas, wallet_b, 1234, 0);
    assert!(replicas.receive_propagated(&proof.credit_proof()).unwrap().is_some());
    let _ = replicas.validate(transfer(&section, wallet_b, 5, 1)).unwrap().unwrap();
    let info = info_of(&section);
    for id in [genesis, wallet_b, random_wallet()] {
        let history = replicas.history(id).unwrap().unwrap();
        let replayed = sn_transfers::WalletReplica::from_history(
            id,
            info.id,
            info.key_index,
            info.peer_replicas.clone(),
            history,
        )
        .unwrap();
        assert_eq!(replicas.balance(id), Ok(Some(replayed.balance())));
    }
    assert_eq!(nano_of(replicas.balance(genesis)), GENESIS_BALANCE - 1234);
    assert_eq!(nano_of(replicas.balance(wallet_b)), 1234);
}

#[test]
fn the_same_debit_is_validated_once() {
    let section = new_section();
    let mut replicas = founded(&section);
    let genesis = genesis_id(&section);
    let signed_transfer = transfer(&section, random_wallet(), 1000, 0);
    assert!(replicas.validate(signed_transfer.clone()).unwrap().is_some());
    let log = replicas.history(genesis).unwrap().unwrap();
    assert!(matches!(replicas.validate(signed_transfer), Err(TransferError::Validation(_))));
    assert!(matches!(
        replicas.validate(transfer(&section, random_wallet(), 7, 0)),
        Err(TransferError::Validation(_))
    ));
    assert_eq!(replicas.history(genesis).unwrap().unwrap(), log);
}

#[test]
fn every_event_stands_under_a_key_of_the_chain() {
    let section = new_section();
    let mut replicas = founded(&section);
    let wallet_b = random_wallet();
    replicas.take_custody(wallet_b);
    let proof = debit_cycle(&section, &mut replicas, wallet_b, 50, 0);
    assert!(replicas.receive_propagated(&proof.credit_proof()).unwrap().is_some());
    let chain = info_of(&section).section_proof_chain;
    let share_key = PublicKey::BlsShare(section.share.public_key_share());
    let events = replicas.all_events().unwrap().unwrap();
    assert_eq!(events.len(), 4);
    for event in events {
        match event {
            ReplicaEvent::TransferValidated(e) => {
                let bytes = bincode::serialize(&e.signed_debit).unwrap();
                let signature = Signature::BlsShare(e.replica_debit_sig);
                assert!(share_key.verify(&signature, bytes).is_ok());
                assert!(chain.contains(&PublicKey::Bls(e.replicas.public_key())));
            }
            ReplicaEvent::TransferRegistered(e) => {
                let bytes = bincode::serialize(&e.transfer_proof.signed_debit).unwrap();
                assert!(chain.iter().any(|key| key.verify(&e.transfer_proof.debit_sig, &bytes).is_ok()));
            }
            ReplicaEvent::TransferPropagated(e) => {
                let bytes = bincode::serialize(&e.credit_proof.signed_credit).unwrap();
                assert!(chain
                    .iter()
                    .any(|key| key.verify(&e.credit_proof.debiting_replicas_sig, &bytes).is_ok()));
                let own = bincode::serialize(&e.credit_proof).unwrap();
                let signature = Signature::BlsShare(e.crediting_replica_sig);
                assert!(share_key.verify(&signature, own).is_ok());
            }
            ReplicaEvent::KnownGroupAdded(_) => unreachable!(),
        }
    }
}

#[test]
fn store_counts_and_hands_out_its_events() {
    let section = new_section();
    let replicas = founded(&section);
    let genesis = genesis_id(&section);
    let events = replicas.history(genesis).unwrap().unwrap();
    let mut store = TransferStore::new(genesis);
    assert_eq!(store.len(), 0);
    store.try_insert(events[0].clone());
    store.try_insert(events[0].clone());
    assert_eq!(store.len(), 2);
    assert_eq!(store.event(1), &events[0]);
}

#[test]
fn later_debit_beyond_the_balance_is_rejected() {
    let section = new_section();
    let mut replicas = Replicas::new(info_of(&section));
    let genesis = genesis_id(&section);
    replicas.take_custody(genesis);
    assert_eq!(replicas.genesis(&genesis_proof(&section, 100), genesis), Ok(None));
    let _ = debit_cycle(&section, &mut replicas, random_wallet(), 60, 0);
    assert_eq!(nano_of(replicas.balance(genesis)), 40);
    let before = replicas.history(genesis).unwrap().unwrap();
    assert_eq!(
        replicas.validate(transfer(&section, random_wallet(), 41, 1)),
        Err(TransferError::Validation(NdError::InsufficientBalance))
    );
    assert_eq!(replicas.history(genesis).unwrap().unwrap(), before);
    let _ = debit_cycle(&section, &mut replicas, random_wallet(), 40, 1);
    assert_eq!(nano_of(replicas.balance(genesis)), 0);
}

fn no_keys() -> PublicKeySet {
    PublicKeySet::from(Poly::zero().commitment())
}

#[test]
fn proof_under_a_key_set_without_a_key_is_unknown() {
    let section = new_section();
    let mut replicas = founded(&section);
    let genesis = genesis_id(&section);
    let wallet_b = random_wallet();
    replicas.take_custody(wallet_b);
    let validated = replicas.validate(transfer(&section, wallet_b, 9, 0)).unwrap().unwrap();
    let mut proof = agreement(&section, &validated);
    proof.debiting_replicas_keys = no_keys();
    let log = replicas.history(genesis).unwrap().unwrap();
    assert_eq!(replicas.register(&proof), Err(TransferError::UnknownSectionKey));
    assert_eq!(
        replicas.receive_propagated(&proof.credit_proof()),
        Err(TransferError::UnknownSectionKey)
    );
    assert_eq!(replicas.history(genesis).unwrap().unwrap(), log);
    assert!(replicas.history(wallet_b).unwrap().unwrap().is_empty());
}

#[test]
fn replica_whose_section_has_no_key_takes_nothing() {
    let section = new_section();
    let mut keeper = founded(&section);
    let wallet_b = random_wallet();
    let proof = debit_cycle(&section, &mut keeper, wallet_b, 9, 0);

    let mut info = info_of(&section);
    info.peer_replicas = no_keys();
    let mut replicas = Replicas::new(info);
    assert_eq!(replicas.founder(), Err(TransferError::NoSectionKey));
    assert_eq!(replicas.initiate(&[]), Err(TransferError::NoSectionKey));
    assert_eq!(replicas.all_events(), Ok(Some(Vec::new())));
    replicas.take_custody(wallet_b);
    replicas.take_custody(genesis_id(&section));
    assert_eq!(
        replicas.receive_propagated(&proof.credit_proof()),
        Err(TransferError::NoSectionKey)
    );
    assert_eq!(
        replicas.genesis(&genesis_proof(&section, 5), genesis_id(&section)),
        Err(TransferError::NoSectionKey)
    );
    let events = keeper.history(genesis_id(&section)).unwrap().unwrap();
    assert_eq!(replicas.initiate(&events[..2]), Ok(None));
    assert_eq!(replicas.register(&proof), Err(TransferError::NoSectionKey));
    assert_eq!(replicas.history(genesis_id(&section)).unwrap().unwrap().len(), 2);
    assert!(replicas.history(wallet_b).unwrap().unwrap().is_empty());
}

#[test]
fn genesis_of_nothing_is_still_the_only_one() {
    let section = new_section();
    let mut replicas = Replicas::new(info_of(&section));
    let genesis = genesis_id(&section);
    replicas.take_custody(genesis);
    assert_eq!(replicas.genesis(&genesis_proof(&section, 0), genesis), Ok(None));
    assert_eq!(replicas.history(genesis).unwrap().unwrap().len(), 1);
    assert_eq!(
        replicas.genesis(&genesis_proof(&section, 0), genesis),
        Err(TransferError::InvalidGenesis)
    );
    assert_eq!(
        replicas.genesis(&genesis_proof(&section, 77), genesis),
        Err(TransferError::InvalidGenesis)
    );
    assert_eq!(replicas.history(genesis).unwrap().unwrap().len(), 1);
    assert_eq!(nano_of(replicas.balance(genesis)), 0);
}

#[test]
fn debit_out_of_order_is_an_error() {
    let section = new_section();
    let mut replicas = founded(&section);
    for counter in [1, 2, u64::MAX] {
        assert!(matches!(
            replicas.validate(transfer(&section, random_wallet(), 1, counter)),
            Err(TransferError::Validation(_))
        ));
    }
}

#[test]
fn records_are_framed_with_their_length() {
    assert_eq!(framing::frame(&[]), Some(vec![0, 0, 0, 0]));
    assert_eq!(framing::frame(&[7, 8, 9]), Some(vec![3, 0, 0, 0, 7, 8, 9]));
    let long = vec![5u8; 0x1_02_03];
    let framed = framing::frame(&long).unwrap();
    assert_eq!(&framed[..4], &[0x03, 0x02, 0x01, 0x00]);
    assert_eq!(&framed[4..], &long[..]);
}

#[test]
fn framed_records_are_read_back() {
    assert_eq!(framing::records(&[]), Some(Vec::new()));
    let mut log = Vec::new();
    let written: Vec<Vec<u8>> = vec![vec![1, 2, 3], vec![], vec![9; 300]];
    for record in written.iter() {
        log.extend(framing::frame(record).unwrap());
    }
    assert_eq!(framing::records(&log), Some(written));
    assert_eq!(framing::records(&[1, 0, 0, 0, 42, 0, 0, 0, 0]), Some(vec![vec![42], vec![]]));
}

#[test]
fn record_cut_short_is_not_read() {
    assert_eq!(framing::records(&[1, 0, 0]), None);
    assert_eq!(framing::records(&[2, 0, 0, 0, 42]), None);
    assert_eq!(framing::records(&[0, 0, 0, 1, 42]), None);
    assert_eq!(framing::records(&[1, 0, 0, 0, 42, 7]), None);
    let mut log = framing::frame(&[1, 2, 3]).unwrap();
    log.extend(framing::frame(&[4, 5]).unwrap());
    let _ = log.pop();
    assert_eq!(framing::records(&log), None);
}

#[test]
fn wallet_without_events_holds_nothing() {
    let section = new_section();
    let mut replicas = Replicas::new(info_of(&section));
    let wallet = random_wallet();
    assert_eq!(replicas.balance(wallet), Ok(Some(Money::from_nano(0))));
    replicas.take_custody(wallet);
    assert_eq!(replicas.balance(wallet), Ok(Some(Money::from_nano(0))));
    assert_eq!(replicas.history(wallet), Ok(Some(Vec::new())));
}

#[test]
fn history_holds_no_group_event() {
    let section = new_section();
    let mut replicas = founded(&section);
    let wallet_b = random_wallet();
    replicas.take_custody(wallet_b);
    let proof = debit_cycle(&section, &mut replicas, wallet_b, 3, 0);
    assert!(replicas.receive_propagated(&proof.credit_proof()).unwrap().is_some());
    for event in replicas.all_events().unwrap().unwrap() {
        assert!(!is_group_event(&event));
    }
}
