use webauthn_wallet::types::{
    Address, Error, Limit, Signer, SignerKey, SignerLimits, SignerStorage, SignerVal,
};
use webauthn_wallet::wallet::Contract;

const MAX_TTL: u32 = 3_110_400;

fn wallet() -> Contract {
    Contract::new(Address { bytes: vec![42; 32] }, MAX_TTL)
}

fn no_limits() -> SignerLimits {
    SignerLimits { entries: Vec::new() }
}

#[test]
fn fresh_wallet() {
    let w = wallet();
    assert_eq!(w.signer_count(), None);
    assert!(!w.add_needs_auth());
    assert_eq!(w.instance_window(), 0);
    assert_eq!(w.wasm_hash(), None);
}

#[test]
fn first_signer_needs_no_authorization() {
    let mut w = wallet();
    let signer = Signer::Ed25519([7; 32], no_limits(), SignerStorage::Persistent);
    assert_eq!(w.add(signer, false), Ok(()));
    assert_eq!(w.signer_count(), Some(1));
    assert!(w.add_needs_auth());
    assert_eq!(w.instance_window(), MAX_TTL - 120_960);
    assert_eq!(
        w.signer(&SignerKey::Ed25519([7; 32])),
        Some((SignerVal::Ed25519(no_limits()), SignerStorage::Persistent))
    );
}

#[test]
fn later_signers_need_authorization() {
    let mut w = wallet();
    assert_eq!(w.add(Signer::Ed25519([7; 32], no_limits(), SignerStorage::Persistent), false), Ok(()));
    let second = Signer::Ed25519([8; 32], no_limits(), SignerStorage::Temporary);
    assert_eq!(w.add(second.clone(), false), Err(Error::NotAuthorized));
    assert_eq!(w.signer(&SignerKey::Ed25519([8; 32])), None);
    assert_eq!(w.signer_count(), Some(1));
    assert_eq!(w.add(second, true), Ok(()));
    assert_eq!(w.signer_count(), Some(2));
    assert_eq!(
        w.signer(&SignerKey::Ed25519([8; 32])),
        Some((SignerVal::Ed25519(no_limits()), SignerStorage::Temporary))
    );
}

#[test]
fn each_kind_of_signer_is_stored_under_its_key() {
    let mut w = wallet();
    let limits = SignerLimits {
        entries: vec![Limit { target: Address { bytes: vec![5; 32] }, required: None }],
    };
    let policy = Address { bytes: vec![9; 32] };
    assert_eq!(w.add(Signer::Policy(policy.clone(), limits.clone(), SignerStorage::Temporary), true), Ok(()));
    assert_eq!(
        w.add(Signer::Secp256r1(vec![1, 2, 3], [4; 65], limits.clone(), SignerStorage::Persistent), true),
        Ok(())
    );
    assert_eq!(
        w.signer(&SignerKey::Policy(policy)),
        Some((SignerVal::Policy(limits.clone()), SignerStorage::Temporary))
    );
    assert_eq!(
        w.signer(&SignerKey::Secp256r1(vec![1, 2, 3])),
        Some((SignerVal::Secp256r1([4; 65], limits), SignerStorage::Persistent))
    );
    assert_eq!(w.signer_window(&SignerKey::Secp256r1(vec![1, 2, 3])), Some(MAX_TTL - 120_960));
}

#[test]
fn adding_again_moves_the_signer_between_tiers() {
    let mut w = wallet();
    assert_eq!(w.add(Signer::Ed25519([7; 32], no_limits(), SignerStorage::Temporary), true), Ok(()));
    assert_eq!(w.add(Signer::Ed25519([7; 32], no_limits(), SignerStorage::Persistent), true), Ok(()));
    assert_eq!(w.signer_count(), Some(1));
    assert_eq!(
        w.signer(&SignerKey::Ed25519([7; 32])),
        Some((SignerVal::Ed25519(no_limits()), SignerStorage::Persistent))
    );
    assert_eq!(w.remove(SignerKey::Ed25519([7; 32]), true), Ok(()));
    assert_eq!(w.signer(&SignerKey::Ed25519([7; 32])), None);
}

#[test]
fn remove_needs_authorization() {
    let mut w = wallet();
    assert_eq!(w.add(Signer::Ed25519([7; 32], no_limits(), SignerStorage::Temporary), false), Ok(()));
    assert_eq!(w.remove(SignerKey::Ed25519([7; 32]), false), Err(Error::NotAuthorized));
    assert_eq!(w.signer_count(), Some(1));
    assert_eq!(w.remove(SignerKey::Ed25519([7; 32]), true), Ok(()));
    assert_eq!(w.signer_count(), Some(0));
    assert_eq!(w.signer(&SignerKey::Ed25519([7; 32])), None);
}

#[test]
fn wallet_without_signers_left_takes_a_first_signer_again() {
    let mut w = wallet();
    assert_eq!(w.add(Signer::Ed25519([7; 32], no_limits(), SignerStorage::Temporary), false), Ok(()));
    assert!(w.add_needs_auth());
    assert_eq!(w.remove(SignerKey::Ed25519([7; 32]), true), Ok(()));
    assert_eq!(w.signer_count(), Some(0));
    assert!(!w.add_needs_auth());
    assert_eq!(
        w.add(Signer::Ed25519([8; 32], no_limits(), SignerStorage::Temporary), false),
        Ok(())
    );
    assert_eq!(w.signer_count(), Some(1));
}

#[test]
fn removing_an_unknown_signer_succeeds_and_renews() {
    let mut w = wallet();
    assert_eq!(w.remove(SignerKey::Ed25519([7; 32]), true), Ok(()));
    assert_eq!(w.signer_count(), None);
    assert_eq!(w.instance_window(), MAX_TTL - 120_960);
}

#[test]
fn update_swaps_the_code_when_authorized() {
    let mut w = wallet();
    assert_eq!(w.update([2u8; 32], false), Err(Error::NotAuthorized));
    assert_eq!(w.wasm_hash(), None);
    assert_eq!(w.instance_window(), 0);
    assert_eq!(w.update([2u8; 32], true), Ok(()));
    assert_eq!(w.wasm_hash(), Some([2u8; 32]));
    assert_eq!(w.instance_window(), MAX_TTL - 120_960);
}

#[test]
fn lifecycle_calls_work_at_the_ends_of_the_count() {
    let mut w = wallet();
    w.load_signer_count(Some(i32::MAX));
    w.load_signer(
        &SignerKey::Ed25519([7; 32]),
        &SignerVal::Ed25519(no_limits()),
        &SignerStorage::Temporary,
        0,
    );
    // Registered again in the other tier: no step is taken.
    assert_eq!(w.add(Signer::Ed25519([7; 32], no_limits(), SignerStorage::Persistent), true), Ok(()));
    assert_eq!(w.signer_count(), Some(i32::MAX));
    assert_eq!(
        w.signer(&SignerKey::Ed25519([7; 32])),
        Some((SignerVal::Ed25519(no_limits()), SignerStorage::Persistent))
    );
    // Refused calls take no step either.
    assert_eq!(
        w.add(Signer::Ed25519([8; 32], no_limits(), SignerStorage::Persistent), false),
        Err(Error::NotAuthorized)
    );
    assert_eq!(w.remove(SignerKey::Ed25519([7; 32]), false), Err(Error::NotAuthorized));
    assert_eq!(w.remove(SignerKey::Ed25519([7; 32]), true), Ok(()));
    assert_eq!(w.signer_count(), Some(i32::MAX - 1));
    w.load_signer_count(Some(i32::MIN));
    assert_eq!(w.remove(SignerKey::Ed25519([9; 32]), true), Ok(()));
    assert_eq!(w.signer_count(), Some(i32::MIN));
}

#[test]
fn own_window_is_never_shortened() {
    let mut w = Contract::new(Address { bytes: vec![42; 32] }, 200_000);
    assert_eq!(w.update([2u8; 32], true), Ok(()));
    assert_eq!(w.instance_window(), 200_000 - 120_960);
    assert_eq!(w.remove(SignerKey::Ed25519([9; 32]), true), Ok(()));
    assert_eq!(w.instance_window(), 200_000 - 120_960);
}
