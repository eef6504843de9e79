use webauthn_wallet::store::{SignerStore, WEEK_OF_LEDGERS};
use webauthn_wallet::types::{Address, Limit, SignerKey, SignerLimits, SignerStorage, SignerVal};

const MAX_TTL: u32 = 3_110_400;

fn key(n: u8) -> SignerKey {
    SignerKey::Ed25519([n; 32])
}

fn open_val() -> SignerVal {
    SignerVal::Ed25519(SignerLimits { entries: Vec::new() })
}

fn scoped_val(target: u8) -> SignerVal {
    SignerVal::Ed25519(SignerLimits {
        entries: vec![Limit {
            target: Address { bytes: vec![target; 32] },
            required: Some(vec![key(9)]),
        }],
    })
}

#[test]
fn week_of_ledgers_is_seven_days_of_five_second_ledgers() {
    assert_eq!(WEEK_OF_LEDGERS, 60 * 60 * 24 / 5 * 7);
    assert_eq!(WEEK_OF_LEDGERS, 120_960);
}

#[test]
fn empty_store_reads_nothing() {
    let mut store = SignerStore::new(MAX_TTL);
    assert_eq!(store.signer_count(), None);
    assert_eq!(store.max_ttl(), MAX_TTL);
    assert_eq!(store.get_signer_val_storage(&key(1), true), None);
    assert_eq!(store.window(&key(1)), None);
}

#[test]
fn added_signer_reads_back_with_value_and_tier() {
    let mut store = SignerStore::new(MAX_TTL);
    store.store_signer(&key(1), &scoped_val(7), &SignerStorage::Temporary);
    store.store_signer(&key(2), &open_val(), &SignerStorage::Persistent);
    assert_eq!(
        store.get_signer_val_storage(&key(1), false),
        Some((scoped_val(7), SignerStorage::Temporary))
    );
    assert_eq!(
        store.get_signer_val_storage(&key(2), false),
        Some((open_val(), SignerStorage::Persistent))
    );
    assert_eq!(store.signer_count(), Some(2));
}

#[test]
fn removed_signer_reads_back_absent() {
    let mut store = SignerStore::new(MAX_TTL);
    store.store_signer(&key(1), &open_val(), &SignerStorage::Temporary);
    store.store_signer(&key(2), &open_val(), &SignerStorage::Persistent);
    store.remove_signer(&key(1));
    assert_eq!(store.get_signer_val_storage(&key(1), false), None);
    assert_eq!(store.signer_count(), Some(1));
    store.remove_signer(&key(2));
    assert_eq!(store.get_signer_val_storage(&key(2), false), None);
    assert_eq!(store.signer_count(), Some(0));
}

#[test]
fn removing_an_absent_signer_changes_nothing() {
    let mut store = SignerStore::new(MAX_TTL);
    store.remove_signer(&key(1));
    assert_eq!(store.signer_count(), None);
    store.store_signer(&key(1), &open_val(), &SignerStorage::Persistent);
    store.remove_signer(&key(2));
    assert_eq!(store.signer_count(), Some(1));
    assert_eq!(
        store.get_signer_val_storage(&key(1), false),
        Some((open_val(), SignerStorage::Persistent))
    );
}

#[test]
fn writing_again_replaces_the_value_and_keeps_the_count() {
    let mut store = SignerStore::new(MAX_TTL);
    store.store_signer(&key(1), &open_val(), &SignerStorage::Persistent);
    store.store_signer(&key(1), &scoped_val(3), &SignerStorage::Persistent);
    assert_eq!(store.signer_count(), Some(1));
    assert_eq!(
        store.get_signer_val_storage(&key(1), false),
        Some((scoped_val(3), SignerStorage::Persistent))
    );
}

#[test]
fn moving_to_the_persistent_tier_leaves_nothing_in_the_temporary_tier() {
    let mut store = SignerStore::new(MAX_TTL);
    store.store_signer(&key(1), &open_val(), &SignerStorage::Temporary);
    store.store_signer(&key(1), &scoped_val(3), &SignerStorage::Persistent);
    assert_eq!(store.signer_count(), Some(1));
    // The temporary tier is asked first: a leftover there would be read.
    assert_eq!(
        store.get_signer_val_storage(&key(1), false),
        Some((scoped_val(3), SignerStorage::Persistent))
    );
    store.remove_signer(&key(1));
    assert_eq!(store.get_signer_val_storage(&key(1), false), None);
    assert_eq!(store.signer_count(), Some(0));
}

#[test]
fn moving_to_the_temporary_tier_leaves_nothing_in_the_persistent_tier() {
    let mut store = SignerStore::new(MAX_TTL);
    store.store_signer(&key(1), &open_val(), &SignerStorage::Persistent);
    store.store_signer(&key(1), &open_val(), &SignerStorage::Temporary);
    assert_eq!(
        store.get_signer_val_storage(&key(1), false),
        Some((open_val(), SignerStorage::Temporary))
    );
    store.remove_signer(&key(1));
    assert_eq!(store.get_signer_val_storage(&key(1), false), None);
    assert_eq!(store.signer_count(), Some(0));
}

#[test]
fn keys_of_different_kinds_with_the_same_bytes_are_different_signers() {
    let mut store = SignerStore::new(MAX_TTL);
    let policy = SignerKey::Policy(Address { bytes: vec![1; 32] });
    let credential = SignerKey::Secp256r1(vec![1; 32]);
    store.store_signer(&key(1), &open_val(), &SignerStorage::Persistent);
    assert_eq!(store.get_signer_val_storage(&policy, false), None);
    assert_eq!(store.get_signer_val_storage(&credential, false), None);
    store.store_signer(
        &policy,
        &SignerVal::Policy(SignerLimits { entries: Vec::new() }),
        &SignerStorage::Persistent,
    );
    assert_eq!(store.signer_count(), Some(2));
}

#[test]
fn window_is_renewed_on_write_to_the_margin_below_the_maximum() {
    let mut store = SignerStore::new(MAX_TTL);
    assert_eq!(store.renewal_window(), MAX_TTL - 120_960);
    store.store_signer(&key(1), &open_val(), &SignerStorage::Temporary);
    assert_eq!(store.window(&key(1)), Some(2_989_440));
}

#[test]
fn smallest_maximum_renews_to_zero() {
    let mut store = SignerStore::new(WEEK_OF_LEDGERS);
    store.store_signer(&key(1), &open_val(), &SignerStorage::Persistent);
    assert_eq!(store.window(&key(1)), Some(0));
}

#[test]
fn touching_read_keeps_value_tier_and_count() {
    let mut store = SignerStore::new(MAX_TTL);
    store.store_signer(&key(1), &scoped_val(1), &SignerStorage::Temporary);
    store.store_signer(&key(2), &scoped_val(2), &SignerStorage::Persistent);
    assert_eq!(
        store.get_signer_val_storage(&key(1), true),
        Some((scoped_val(1), SignerStorage::Temporary))
    );
    assert_eq!(
        store.get_signer_val_storage(&key(2), true),
        Some((scoped_val(2), SignerStorage::Persistent))
    );
    assert_eq!(store.window(&key(1)), Some(MAX_TTL - WEEK_OF_LEDGERS));
    assert_eq!(store.window(&key(2)), Some(MAX_TTL - WEEK_OF_LEDGERS));
    assert_eq!(store.signer_count(), Some(2));
}

#[test]
fn count_steps_up_and_down_from_zero() {
    let mut store = SignerStore::new(MAX_TTL);
    store.update_signer_count(true);
    assert_eq!(store.signer_count(), Some(1));
    store.update_signer_count(false);
    store.update_signer_count(false);
    assert_eq!(store.signer_count(), Some(-1));
}

#[test]
fn renewal_never_shortens_a_longer_window() {
    let mut store = SignerStore::new(6_312_000);
    store.load_signer(&key(1), &open_val(), &SignerStorage::Temporary, 6_312_000);
    store.load_signer(&key(2), &open_val(), &SignerStorage::Persistent, 6_200_000);
    assert_eq!(
        store.get_signer_val_storage(&key(1), true),
        Some((open_val(), SignerStorage::Temporary))
    );
    assert_eq!(
        store.get_signer_val_storage(&key(2), true),
        Some((open_val(), SignerStorage::Persistent))
    );
    assert_eq!(store.window(&key(1)), Some(6_312_000));
    assert_eq!(store.window(&key(2)), Some(6_200_000));
}

#[test]
fn renewal_extends_a_shorter_window_to_the_margin_below_the_maximum() {
    let mut store = SignerStore::new(6_312_000);
    store.load_signer(&key(1), &open_val(), &SignerStorage::Temporary, 0);
    store.load_signer(&key(2), &open_val(), &SignerStorage::Persistent, 6_191_039);
    store.load_signer(&key(3), &open_val(), &SignerStorage::Persistent, 6_191_040);
    store.get_signer_val_storage(&key(1), true);
    store.get_signer_val_storage(&key(2), true);
    store.get_signer_val_storage(&key(3), true);
    assert_eq!(store.window(&key(1)), Some(6_191_040));
    assert_eq!(store.window(&key(2)), Some(6_191_040));
    assert_eq!(store.window(&key(3)), Some(6_191_040));
    assert_eq!(store.renew(7), 6_191_040);
    assert_eq!(store.renew(6_191_041), 6_191_041);
}

#[test]
fn renewal_leaves_everything_else_as_it_was() {
    let mut store = SignerStore::new(MAX_TTL);
    store.load_signer_count(Some(5));
    store.load_signer(&key(1), &scoped_val(1), &SignerStorage::Temporary, 1);
    store.load_signer(&key(2), &scoped_val(2), &SignerStorage::Persistent, 2);
    store.get_signer_val_storage(&key(1), true);
    assert_eq!(store.window(&key(2)), Some(2));
    assert_eq!(store.signer_count(), Some(5));
    assert_eq!(
        store.get_signer_val_storage(&key(2), false),
        Some((scoped_val(2), SignerStorage::Persistent))
    );
    // A key that no tier holds changes nothing.
    assert_eq!(store.get_signer_val_storage(&key(3), true), None);
    assert_eq!(store.window(&key(1)), Some(MAX_TTL - WEEK_OF_LEDGERS));
    assert_eq!(store.window(&key(2)), Some(2));
    assert_eq!(store.window(&key(3)), None);
}

#[test]
fn reading_without_renewal_leaves_the_window() {
    let mut store = SignerStore::new(MAX_TTL);
    store.load_signer(&key(1), &open_val(), &SignerStorage::Temporary, 17);
    store.get_signer_val_storage(&key(1), false);
    assert_eq!(store.window(&key(1)), Some(17));
}

#[test]
fn writing_again_never_shortens_the_window_of_the_tier() {
    let mut store = SignerStore::new(6_312_000);
    store.load_signer(&key(1), &open_val(), &SignerStorage::Persistent, 6_312_000);
    store.store_signer(&key(1), &scoped_val(1), &SignerStorage::Persistent);
    assert_eq!(store.window(&key(1)), Some(6_312_000));
    // In the other tier the record is new: its window is what a renewal
    // reaches for.
    store.store_signer(&key(1), &scoped_val(1), &SignerStorage::Temporary);
    assert_eq!(store.window(&key(1)), Some(6_191_040));
}

#[test]
fn count_needs_room_only_for_the_step_it_takes() {
    let mut store = SignerStore::new(MAX_TTL);
    store.load_signer_count(Some(i32::MAX));
    store.load_signer(&key(1), &open_val(), &SignerStorage::Temporary, 0);
    // Written again, moved and removed at the upper end of the range.
    store.store_signer(&key(1), &scoped_val(1), &SignerStorage::Persistent);
    assert_eq!(store.signer_count(), Some(i32::MAX));
    store.update_signer_count(false);
    assert_eq!(store.signer_count(), Some(i32::MAX - 1));
    store.remove_signer(&key(1));
    assert_eq!(store.signer_count(), Some(i32::MAX - 2));
    // Stepped up, and left alone, at the lower end.
    store.load_signer_count(Some(i32::MIN));
    store.remove_signer(&key(1));
    assert_eq!(store.signer_count(), Some(i32::MIN));
    store.store_signer(&key(1), &open_val(), &SignerStorage::Temporary);
    assert_eq!(store.signer_count(), Some(i32::MIN + 1));
}
