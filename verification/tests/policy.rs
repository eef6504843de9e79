use webauthn_wallet::policy::{
    Contract, Error, RootCall, RootContext, SignatureKind, SubCall, SubContext,
    NATIVE_SAC_FUTURENET, NATIVE_SAC_MAINNET, NATIVE_SAC_TEST, NATIVE_SAC_TESTNET,
};
use webauthn_wallet::types::Address;

fn wallet() -> Address {
    Address { bytes: b"CWALLETWALLETWALLETWALLETWALLETWALLETWALLETWALLETWALLETW".to_vec() }
}

fn native() -> Address {
    Address { bytes: NATIVE_SAC_TESTNET.to_vec() }
}

fn transfer(contract: Address, amount: i128) -> SubContext {
    SubContext::Contract(SubCall { contract, fn_name: b"transfer".to_vec(), amount: Some(amount) })
}

fn check(signatures: Option<Vec<SignatureKind>>, contexts: Option<Vec<SubContext>>) -> RootContext {
    RootContext::Contract(RootCall {
        contract: wallet(),
        fn_name: b"__check_auth".to_vec(),
        signatures,
        contexts,
    })
}

fn verdict(root: RootContext) -> Result<(), Error> {
    Contract::__check_auth(&vec![root])
}

#[test]
fn native_asset_contracts_are_the_four_known_addresses() {
    assert_eq!(&NATIVE_SAC_TEST[..], b"CDLDVFKHEZ2RVB3NG4UQA4VPD3TSHV6XMHXMHP2BSGCJ2IIWVTOHGDSG");
    assert_eq!(
        &NATIVE_SAC_FUTURENET[..],
        b"CB64D3G7SM2RTH6JSGG34DDTFTQ5CFDKVDZJZSODMCX4NJ2HV2KN7OHT"
    );
    assert_eq!(
        &NATIVE_SAC_TESTNET[..],
        b"CDLZFC3SYJYDZT7K67VZ75HPJVIEUVNIXF47ZG2FB2RMQQVU2HHGCYSC"
    );
    assert_eq!(
        &NATIVE_SAC_MAINNET[..],
        b"CAS3J7GYLGXMF6TDJBBYYSE3HQ6BBSMLNUQ34T6TZMYMW2EVH34XOWMA"
    );
}

#[test]
fn empty_batch_passes() {
    assert_eq!(Contract::__check_auth(&Vec::new()), Ok(()));
}

#[test]
fn other_calls_and_creations_pass_unjudged() {
    let other = RootContext::Contract(RootCall {
        contract: wallet(),
        fn_name: b"transfer".to_vec(),
        signatures: Some(Vec::new()),
        contexts: Some(Vec::new()),
    });
    assert_eq!(verdict(other), Ok(()));
    assert_eq!(verdict(RootContext::CreateContractHostFn), Ok(()));
}

#[test]
fn check_without_readable_arguments_passes() {
    assert_eq!(verdict(check(None, None)), Ok(()));
}

#[test]
fn small_native_transfer_signed_by_a_key_pair_passes() {
    for kind in [SignatureKind::Ed25519, SignatureKind::Secp256r1] {
        let root = check(
            Some(vec![SignatureKind::Policy, kind]),
            Some(vec![transfer(native(), 10_000_000)]),
        );
        assert_eq!(verdict(root), Ok(()));
    }
    for sac in [NATIVE_SAC_TEST, NATIVE_SAC_FUTURENET, NATIVE_SAC_TESTNET, NATIVE_SAC_MAINNET] {
        let root = check(
            Some(vec![SignatureKind::Ed25519]),
            Some(vec![transfer(Address { bytes: sac.to_vec() }, 1)]),
        );
        assert_eq!(verdict(root), Ok(()));
    }
}

#[test]
fn policy_signatures_alone_are_refused() {
    let contexts = || Some(vec![transfer(native(), 1)]);
    assert_eq!(verdict(check(Some(Vec::new()), contexts())), Err(Error::NotAllowed));
    assert_eq!(
        verdict(check(Some(vec![SignatureKind::Policy, SignatureKind::Policy]), contexts())),
        Err(Error::NotAllowed)
    );
    assert_eq!(verdict(check(Some(vec![SignatureKind::Policy]), None)), Err(Error::NotAllowed));
}

#[test]
fn large_transfer_is_refused() {
    let signed = || Some(vec![SignatureKind::Ed25519]);
    assert_eq!(
        verdict(check(signed(), Some(vec![transfer(native(), 10_000_001)]))),
        Err(Error::NotAllowed)
    );
    assert_eq!(
        verdict(check(signed(), Some(vec![transfer(native(), i128::MAX)]))),
        Err(Error::NotAllowed)
    );
    // A negative amount is below the limit.
    assert_eq!(verdict(check(signed(), Some(vec![transfer(native(), -5)]))), Ok(()));
}

#[test]
fn one_approved_operation_carries_the_others() {
    let signed = || Some(vec![SignatureKind::Ed25519]);
    let elsewhere = Address { bytes: vec![b'C'; 56] };
    assert_eq!(
        verdict(check(
            signed(),
            Some(vec![transfer(elsewhere.clone(), 1_000_000_000), transfer(native(), 5)])
        )),
        Ok(())
    );
    assert_eq!(
        verdict(check(signed(), Some(vec![transfer(elsewhere, 5)]))),
        Err(Error::NotAllowed)
    );
    assert_eq!(verdict(check(signed(), Some(Vec::new()))), Err(Error::NotAllowed));
}

#[test]
fn only_transfers_with_an_amount_are_approved() {
    let signed = || Some(vec![SignatureKind::Secp256r1]);
    let approve = SubContext::Contract(SubCall {
        contract: native(),
        fn_name: b"approve".to_vec(),
        amount: Some(1),
    });
    assert_eq!(verdict(check(signed(), Some(vec![approve]))), Err(Error::NotAllowed));
    let unreadable = SubContext::Contract(SubCall {
        contract: native(),
        fn_name: b"transfer".to_vec(),
        amount: None,
    });
    assert_eq!(verdict(check(signed(), Some(vec![unreadable]))), Err(Error::NotAllowed));
}

#[test]
fn calls_on_the_wallet_itself_are_refused() {
    let signed = || Some(vec![SignatureKind::Ed25519]);
    let on_wallet = SubContext::Contract(SubCall {
        contract: wallet(),
        fn_name: b"remove".to_vec(),
        amount: None,
    });
    assert_eq!(
        verdict(check(signed(), Some(vec![transfer(native(), 5), on_wallet]))),
        Err(Error::NotAllowed)
    );
}

#[test]
fn creations_among_the_operations_are_refused() {
    let signed = || Some(vec![SignatureKind::Ed25519]);
    assert_eq!(
        verdict(check(
            signed(),
            Some(vec![transfer(native(), 5), SubContext::CreateContractHostFn])
        )),
        Err(Error::NotAllowed)
    );
}

#[test]
fn more_than_twenty_operations_are_refused() {
    let signed = || Some(vec![SignatureKind::Ed25519]);
    let many = |n: usize| Some((0..n).map(|_| transfer(native(), 5)).collect::<Vec<_>>());
    assert_eq!(verdict(check(signed(), many(20))), Ok(()));
    assert_eq!(verdict(check(signed(), many(21))), Err(Error::NotAllowed));
}

#[test]
fn one_refused_check_refuses_the_batch() {
    let good = check(Some(vec![SignatureKind::Ed25519]), Some(vec![transfer(native(), 5)]));
    let bad = check(Some(vec![SignatureKind::Policy]), Some(vec![transfer(native(), 5)]));
    assert_eq!(Contract::__check_auth(&vec![good.clone(), good.clone()]), Ok(()));
    assert_eq!(
        Contract::__check_auth(&vec![good, RootContext::CreateContractHostFn, bad]),
        Err(Error::NotAllowed)
    );
}
