use webauthn_wallet::auth::{PolicyCall, MAX_SIGNATURES};
use webauthn_wallet::engine::{
    check_proof, check_self_call, count_verified, has_distinct_keys, has_distinct_targets, settle,
    Engine, Progress,
};
use webauthn_wallet::store::SignerStore;
use webauthn_wallet::types::{
    Address, Arg, Context, ContractContext, Error, Limit, Signature, SignatureEntry, SignerKey,
    SignerLimits, SignerStorage, SignerVal,
};
use webauthn_wallet::values::{bytes_copy, bytes_eq, keys_copy};

fn open_val() -> SignerVal {
    SignerVal::Ed25519(SignerLimits { entries: Vec::new() })
}

#[test]
fn ledger_has_twenty_slots() {
    assert_eq!(MAX_SIGNATURES, 20);
}

#[test]
fn count_of_an_empty_ledger_is_zero() {
    assert_eq!(count_verified(&[false; 20]), 0);
}

#[test]
fn count_of_a_full_ledger_is_twenty() {
    assert_eq!(count_verified(&[true; 20]), 20);
}

#[test]
fn count_is_the_number_of_marked_slots() {
    let mut ledger = [false; 20];
    ledger[0] = true;
    ledger[7] = true;
    ledger[19] = true;
    assert_eq!(count_verified(&ledger), 3);
    ledger[7] = true;
    assert_eq!(count_verified(&ledger), 3);
}

#[test]
fn marked_entry_is_not_checked_again() {
    // The signature is no signature of anything: unmarked it is refused,
    // marked it is not looked at.
    let entry = SignatureEntry {
        key: SignerKey::Ed25519([1; 32]),
        signature: Some(Signature::Ed25519([0; 64])),
    };
    assert_eq!(check_proof(&entry, &open_val(), &[0; 32], false), Err(Error::InvalidSignature));
    assert_eq!(check_proof(&entry, &open_val(), &[0; 32], true), Ok(()));
}

#[test]
fn kind_of_proof_is_checked_even_on_a_marked_entry() {
    let entry = SignatureEntry { key: SignerKey::Ed25519([1; 32]), signature: None };
    assert_eq!(
        check_proof(&entry, &open_val(), &[0; 32], true),
        Err(Error::InvalidSignatureForSignerKey)
    );
    let entry = SignatureEntry {
        key: SignerKey::Secp256r1(vec![1]),
        signature: Some(Signature::Ed25519([0; 64])),
    };
    assert_eq!(
        check_proof(&entry, &open_val(), &[0; 32], true),
        Err(Error::SignatureKeyValueMismatch)
    );
}

#[test]
fn self_call_guard_reads_name_and_first_argument() {
    let wallet = Address { bytes: vec![1; 8] };
    let own = SignerKey::Ed25519([5; 32]);
    let other = SignerKey::Ed25519([6; 32]);
    let call = |contract: &Address, name: &str, args: Vec<Arg>| {
        Context::Contract(ContractContext {
            contract: contract.clone(),
            fn_name: name.as_bytes().to_vec(),
            args,
        })
    };
    assert!(check_self_call(&call(&wallet, "remove", vec![Arg::Key(own.clone())]), &wallet, &own));
    assert!(!check_self_call(&call(&wallet, "remove", vec![Arg::Key(other)]), &wallet, &own));
    assert!(!check_self_call(&call(&wallet, "remove", Vec::new()), &wallet, &own));
    assert!(!check_self_call(&call(&wallet, "Remove", vec![Arg::Key(own.clone())]), &wallet, &own));
    assert!(!check_self_call(&call(&wallet, "", vec![Arg::Key(own.clone())]), &wallet, &own));
    let elsewhere = Address { bytes: vec![2; 8] };
    assert!(check_self_call(&call(&elsewhere, "anything", Vec::new()), &wallet, &own));
    assert!(check_self_call(&Context::CreateContractHostFn, &wallet, &own));
}

#[test]
fn engine_runs_on_a_store() {
    let mut store = SignerStore::new(200_000);
    let policy = SignerKey::Policy(Address { bytes: vec![3; 8] });
    let target = Address { bytes: vec![4; 8] };
    store.store_signer(
        &policy,
        &SignerVal::Policy(SignerLimits {
            entries: vec![Limit { target: target.clone(), required: None }],
        }),
        &SignerStorage::Temporary,
    );
    let wallet = Address { bytes: vec![1; 8] };
    let entries = vec![SignatureEntry { key: policy.clone(), signature: None }];
    let contexts = vec![Context::Contract(ContractContext {
        contract: target,
        fn_name: b"swap".to_vec(),
        args: Vec::new(),
    })];
    let engine =
        Engine { wallet: &wallet, payload: &[9; 32], entries: &entries, contexts: &contexts };
    let calls = engine.run(&mut store).unwrap();
    assert_eq!(calls.len(), 1);
    assert_eq!((calls[0].slot, calls[0].context), (0, 0));
    assert_eq!(store.window(&policy), Some(200_000 - 120_960));
}

#[test]
fn bytes_compare_by_content() {
    assert!(bytes_eq(&[], &[]));
    assert!(bytes_eq(&[1, 2, 3], &[1, 2, 3]));
    assert!(!bytes_eq(&[1, 2, 3], &[1, 2]));
    assert!(!bytes_eq(&[1, 2, 3], &[1, 2, 4]));
    assert!(!bytes_eq(&[0], &[]));
}

#[test]
fn copies_hold_the_same_values() {
    assert_eq!(bytes_copy(&vec![5, 6, 7]), vec![5, 6, 7]);
    assert_eq!(bytes_copy(&Vec::new()), Vec::<u8>::new());
    let keys = vec![
        SignerKey::Policy(Address { bytes: vec![1, 2] }),
        SignerKey::Ed25519([3; 32]),
        SignerKey::Secp256r1(vec![4, 5, 6]),
    ];
    assert_eq!(keys_copy(&keys), keys);
    for a in keys.iter() {
        assert_eq!(a.copy(), *a);
        for b in keys.iter() {
            assert_eq!(a.same(b), a == b);
        }
    }
    let limits = SignerLimits {
        entries: vec![
            Limit { target: Address { bytes: vec![9] }, required: Some(keys.clone()) },
            Limit { target: Address { bytes: vec![8] }, required: None },
        ],
    };
    assert_eq!(limits.copy(), limits);
    let val = SignerVal::Secp256r1([7; 65], limits.clone());
    assert_eq!(val.copy(), val);
    assert_eq!(*val.limits(), limits);
}

#[test]
fn keys_of_different_kinds_are_never_the_same() {
    let bytes = [1u8; 32];
    let a = SignerKey::Ed25519(bytes);
    let b = SignerKey::Secp256r1(bytes.to_vec());
    let c = SignerKey::Policy(Address { bytes: bytes.to_vec() });
    assert!(!a.same(&b));
    assert!(!b.same(&c));
    assert!(!c.same(&a));
}

#[test]
fn grant_stands_when_every_policy_approves() {
    let calls = vec![PolicyCall { slot: 0, context: 0 }, PolicyCall { slot: 0, context: 1 }];
    assert_eq!(settle(&calls, &vec![true, true]), Ok(()));
    assert_eq!(settle(&Vec::new(), &Vec::new()), Ok(()));
}

#[test]
fn grant_falls_when_a_policy_refuses_or_is_not_asked() {
    let calls = vec![PolicyCall { slot: 0, context: 0 }, PolicyCall { slot: 0, context: 1 }];
    // Approving the first operation does not approve the second.
    assert_eq!(settle(&calls, &vec![true, false]), Err(Error::NotAuthorized));
    assert_eq!(settle(&calls, &vec![false, true]), Err(Error::NotAuthorized));
    assert_eq!(settle(&calls, &vec![true]), Err(Error::NotAuthorized));
    assert_eq!(settle(&calls, &Vec::new()), Err(Error::NotAuthorized));
    assert_eq!(settle(&calls, &vec![true, true, true]), Err(Error::NotAuthorized));
}

fn policy(n: u8) -> SignerKey {
    SignerKey::Policy(Address { bytes: vec![n; 8] })
}

fn policy_store(keys: &[u8]) -> SignerStore {
    let mut store = SignerStore::new(200_000);
    for n in keys {
        store.store_signer(
            &policy(*n),
            &SignerVal::Policy(SignerLimits { entries: Vec::new() }),
            &SignerStorage::Persistent,
        );
    }
    store
}

fn fresh() -> Progress {
    Progress { ledger: [false; 20], calls: Vec::new() }
}

#[test]
fn policy_entry_is_asked_each_time_it_is_verified() {
    let mut store = policy_store(&[1]);
    let wallet = Address { bytes: vec![0; 8] };
    let entries = vec![SignatureEntry { key: policy(1), signature: None }];
    let contexts = vec![Context::CreateContractHostFn, Context::CreateContractHostFn];
    let engine =
        Engine { wallet: &wallet, payload: &[9; 32], entries: &entries, contexts: &contexts };
    let mut progress = fresh();
    assert!(engine.verify(&mut store, &mut progress, 0, 0).is_ok());
    assert!(progress.ledger[0]);
    assert_eq!(progress.calls, vec![PolicyCall { slot: 0, context: 0 }]);
    // The slot is marked already: the policy is asked all the same, for the
    // operation at hand.
    assert!(engine.verify(&mut store, &mut progress, 0, 1).is_ok());
    assert!(progress.ledger[0]);
    assert_eq!(
        progress.calls,
        vec![PolicyCall { slot: 0, context: 0 }, PolicyCall { slot: 0, context: 1 }]
    );
    assert_eq!(count_verified(&progress.ledger), 1);
}

#[test]
fn verifier_hands_back_the_record_and_fails_on_an_unknown_signer() {
    let mut store = policy_store(&[1]);
    let wallet = Address { bytes: vec![0; 8] };
    let entries = vec![
        SignatureEntry { key: policy(1), signature: None },
        SignatureEntry { key: policy(2), signature: None },
    ];
    let contexts = vec![Context::CreateContractHostFn];
    let engine =
        Engine { wallet: &wallet, payload: &[9; 32], entries: &entries, contexts: &contexts };
    let mut progress = fresh();
    assert_eq!(
        engine.verify(&mut store, &mut progress, 0, 0),
        Ok(SignerVal::Policy(SignerLimits { entries: Vec::new() }))
    );
    assert_eq!(engine.verify(&mut store, &mut progress, 1, 0), Err(Error::SignerNotFound));
    assert!(!progress.ledger[1]);
    assert_eq!(progress.calls.len(), 1);
}

#[test]
fn key_that_was_not_submitted_is_not_found() {
    let mut store = policy_store(&[1, 2]);
    let wallet = Address { bytes: vec![0; 8] };
    let entries = vec![SignatureEntry { key: policy(1), signature: None }];
    let contexts = vec![Context::CreateContractHostFn];
    let engine =
        Engine { wallet: &wallet, payload: &[9; 32], entries: &entries, contexts: &contexts };
    let mut progress = fresh();
    // Registered, but not among the entries.
    assert_eq!(
        engine.verify_key(&mut store, &mut progress, &policy(2), 0),
        Err(Error::SignerNotFound)
    );
    assert_eq!(count_verified(&progress.ledger), 0);
    assert!(progress.calls.is_empty());
    assert_eq!(store.window(&policy(2)), Some(200_000 - 120_960));
    assert!(engine.verify_key(&mut store, &mut progress, &policy(1), 0).is_ok());
    assert!(progress.ledger[0]);
}

#[test]
fn cosigners_are_verified_in_order_until_one_is_missing() {
    let mut store = policy_store(&[1, 2, 3]);
    let wallet = Address { bytes: vec![0; 8] };
    let entries = vec![
        SignatureEntry { key: policy(1), signature: None },
        SignatureEntry { key: policy(3), signature: None },
    ];
    let contexts = vec![Context::CreateContractHostFn];
    let engine =
        Engine { wallet: &wallet, payload: &[9; 32], entries: &entries, contexts: &contexts };
    // All submitted: verified, each in its own slot.
    let mut progress = fresh();
    assert_eq!(
        engine.verify_signer_limit_keys(&mut store, &mut progress, &vec![policy(3), policy(1)], 0),
        Ok(true)
    );
    assert!(progress.ledger[0] && progress.ledger[1]);
    assert_eq!(
        progress.calls,
        vec![PolicyCall { slot: 1, context: 0 }, PolicyCall { slot: 0, context: 0 }]
    );
    // One missing: never true, and the ones before it were verified.
    let mut progress = fresh();
    assert_eq!(
        engine.verify_signer_limit_keys(
            &mut store,
            &mut progress,
            &vec![policy(1), policy(2), policy(3)],
            0
        ),
        Ok(false)
    );
    assert!(progress.ledger[0]);
    assert!(!progress.ledger[1]);
    // None required: true, and nothing verified.
    let mut progress = fresh();
    assert_eq!(
        engine.verify_signer_limit_keys(&mut store, &mut progress, &Vec::new(), 0),
        Ok(true)
    );
    assert_eq!(count_verified(&progress.ledger), 0);
}

#[test]
fn cosigner_that_does_not_verify_fails_the_attempt_before_a_missing_one_is_noticed() {
    let mut store = policy_store(&[1]);
    let wallet = Address { bytes: vec![0; 8] };
    let entries = vec![SignatureEntry { key: policy(4), signature: None }];
    let contexts = vec![Context::CreateContractHostFn];
    let engine =
        Engine { wallet: &wallet, payload: &[9; 32], entries: &entries, contexts: &contexts };
    let mut progress = fresh();
    assert_eq!(
        engine.verify_signer_limit_keys(&mut store, &mut progress, &vec![policy(4), policy(5)], 0),
        Err(Error::SignerNotFound)
    );
}

#[test]
fn distinct_keys_and_targets_are_recognized() {
    let entry = |n: u8| SignatureEntry { key: policy(n), signature: None };
    assert!(has_distinct_keys(&Vec::new()));
    assert!(has_distinct_keys(&vec![entry(1), entry(2), entry(3)]));
    assert!(!has_distinct_keys(&vec![entry(1), entry(2), entry(1)]));
    assert!(!has_distinct_keys(&vec![entry(2), entry(2)]));
    let limit = |n: u8| Limit { target: Address { bytes: vec![n] }, required: None };
    assert!(has_distinct_targets(&SignerLimits { entries: Vec::new() }));
    assert!(has_distinct_targets(&SignerLimits { entries: vec![limit(1), limit(2)] }));
    assert!(!has_distinct_targets(&SignerLimits { entries: vec![limit(1), limit(2), limit(2)] }));
}

#[test]
fn first_entry_for_a_target_decides() {
    let mut store = SignerStore::new(200_000);
    let target = Address { bytes: vec![7; 8] };
    // Two entries for one target: the first requires nothing, the second a
    // co-signer that nobody submits.
    store.store_signer(
        &policy(1),
        &SignerVal::Policy(SignerLimits {
            entries: vec![
                Limit { target: target.clone(), required: None },
                Limit { target: target.clone(), required: Some(vec![policy(9)]) },
            ],
        }),
        &SignerStorage::Persistent,
    );
    let wallet = Address { bytes: vec![0; 8] };
    let entries = vec![SignatureEntry { key: policy(1), signature: None }];
    let contexts = vec![Context::Contract(ContractContext {
        contract: target,
        fn_name: b"swap".to_vec(),
        args: Vec::new(),
    })];
    let engine =
        Engine { wallet: &wallet, payload: &[9; 32], entries: &entries, contexts: &contexts };
    assert_eq!(engine.run(&mut store), Ok(vec![PolicyCall { slot: 0, context: 0 }]));
}
