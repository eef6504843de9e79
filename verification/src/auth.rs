//! What one authorization attempt decides, as a mathematical function of the
//! store, the payload hash, the submitted entries and the requested
//! operations.
//!
//! An attempt walks the requested operations in order. For each it looks for
//! the first submitted entry whose signer authorizes the operation. Every
//! entry it looks at is verified, once per attempt, and its slot of the
//! verification ledger is marked. A delegated policy is not verified here: the
//! attempt records that the policy has to approve the operation, each time
//! anew.
//!
//! A co-signer that a scope requires is verified like any other entry: it has
//! to be registered, its proof is checked, and the slot marked is its own. So
//! a signer never authorizes an operation on the strength of a co-signer that
//! was merely named, and a granted attempt has verified every entry that was
//! submitted.
use crate::store::StoreView;
use crate::types::{
    Arg, Context, Error, KeyView, LimitView, Signature, SignatureEntry, SignerKey, ValView,
};
use crate::verify::{plain_outcome, secp256r1_outcome};
use vstd::prelude::*;

verus! {

/// The slots of the verification ledger, and so the number of entries that
/// one attempt may carry.
pub const MAX_SIGNATURES: usize = 20;

/// An approval that the attempt depends on: the delegated policy submitted in
/// slot `slot` has to approve the requested operation number `context`.
#[derive(Clone, Copy, Debug, PartialEq, Eq, Structural)]
pub struct PolicyCall {
    pub slot: usize,
    pub context: usize,
}

/// Where an attempt stands.
#[verifier::ext_equal]
pub struct Attempt {
    pub store: StoreView,
    /// One slot per submitted entry: whether it was verified.
    pub ledger: Seq<bool>,
    /// The approvals asked of delegated policies so far, in order.
    pub calls: Seq<PolicyCall>,
}

/// What an attempt has to go by: the wallet's own address, the payload hash,
/// the submitted entries and the requested operations.
pub struct Request {
    pub wallet: Seq<u8>,
    pub payload: Seq<u8>,
    pub entries: Seq<SignatureEntry>,
    pub contexts: Seq<Context>,
}

/// How many slots are marked.
pub open spec fn count_marked(ledger: Seq<bool>) -> nat
    decreases ledger.len(),
{
    if ledger.len() == 0 {
        0
    } else {
        count_marked(ledger.drop_last()) + if ledger.last() {
            1nat
        } else {
            0nat
        }
    }
}

/// The name of the one call on the wallet itself that a scoped signer may
/// authorize: `remove`.
pub open spec fn remove_name() -> Seq<u8> {
    seq![114u8, 101u8, 109u8, 111u8, 118u8, 101u8]
}

/// The target that a scope is asked about: the contract that is called, and
/// the wallet itself for an operation that calls none.
pub open spec fn context_target(context: Context, wallet: Seq<u8>) -> Seq<u8> {
    match context {
        Context::Contract(call) => call.contract@,
        Context::CreateContractHostFn => wallet,
    }
}

/// Whether a scoped signer may authorize `context` as far as calls on the
/// wallet itself go: of those only `remove`, and only of the signer's own
/// key.
pub open spec fn self_call_allowed(context: Context, wallet: Seq<u8>, key: KeyView) -> bool {
    match context {
        Context::Contract(call) => call.contract@ == wallet ==> {
            &&& call.fn_name@ == remove_name()
            &&& call.args@.len() > 0
            &&& call.args@[0] matches Arg::Key(k)
            &&& k@ == key
        },
        Context::CreateContractHostFn => true,
    }
}

/// The first entry of a scope for `target`, from `from` on: what it requires.
pub open spec fn limit_from(limits: Seq<LimitView>, target: Seq<u8>, from: int) -> Option<
    Option<Seq<KeyView>>,
>
    decreases limits.len() - from,
{
    if from < 0 || from >= limits.len() {
        None
    } else if limits[from].target == target {
        Some(limits[from].required)
    } else {
        limit_from(limits, target, from + 1)
    }
}

/// The first slot from `from` on that was submitted under `key`.
pub open spec fn slot_from(entries: Seq<SignatureEntry>, key: KeyView, from: int) -> Option<int>
    decreases entries.len() - from,
{
    if from < 0 || from >= entries.len() {
        None
    } else if entries[from].key@ == key {
        Some(from)
    } else {
        slot_from(entries, key, from + 1)
    }
}

/// No key is submitted twice. The entries of one attempt are a mapping from
/// keys to proofs; as a list they need not be one, and nothing here asks
/// that they are. Where a key is submitted twice, each of its entries has a
/// slot of its own, a co-signer is looked for at the first of them, and the
/// attempt is granted only if every slot was used.
pub open spec fn distinct_keys(entries: Seq<SignatureEntry>) -> bool {
    forall|i: int, j: int|
        0 <= i < j < entries.len() ==> (#[trigger] entries[i]).key@ != (
        #[trigger] entries[j]).key@
}

/// No target has two entries. A scope is a mapping from targets to what they
/// require; as a list it need not be one, and nothing here asks that it is.
/// Where a target has several entries, the first decides and the others are
/// never read.
pub open spec fn distinct_targets(limits: Seq<LimitView>) -> bool {
    forall|i: int, j: int|
        0 <= i < j < limits.len() ==> (#[trigger] limits[i]).target != (
        #[trigger] limits[j]).target
}

/// The verdict on the proof of one entry, given the record stored under its
/// key and whether its slot is marked already. A delegated policy brings no
/// proof; any other signer brings one of its own kind, which is checked
/// unless the slot is marked.
pub open spec fn proof_outcome(
    entry: SignatureEntry,
    val: ValView,
    payload: Seq<u8>,
    marked: bool,
) -> Result<(), Error> {
    match entry.signature {
        None => match entry.key {
            SignerKey::Policy(_) => Ok(()),
            _ => Err(Error::InvalidSignatureForSignerKey),
        },
        Some(Signature::Ed25519(signature)) => match entry.key {
            SignerKey::Ed25519(public_key) => if marked {
                Ok(())
            } else {
                plain_outcome(payload, public_key@, signature@)
            },
            _ => Err(Error::SignatureKeyValueMismatch),
        },
        Some(Signature::Secp256r1(proof)) => match entry.key {
            SignerKey::Policy(_) => Err(Error::InvalidSignatureForSignerKey),
            SignerKey::Ed25519(_) => Err(Error::SignatureKeyValueMismatch),
            SignerKey::Secp256r1(_) => match val {
                ValView::Secp256r1(public_key, _) => if marked {
                    Ok(())
                } else {
                    secp256r1_outcome(public_key, proof, payload)
                },
                _ => Err(Error::SignatureKeyValueMismatch),
            },
        },
    }
}

/// Verifies the entry in `slot` for the operation number `context`: reads the
/// signer, which renews its window, checks its proof, and marks the slot; a
/// delegated policy is also asked to approve the operation. Hands back the
/// signer's record.
pub open spec fn verify_entry(at: Attempt, rq: Request, slot: int, context: int) -> (
    Attempt,
    Result<ValView, Error>,
) {
    let entry = rq.entries[slot];
    match at.store.get(entry.key@) {
        None => (at, Err(Error::SignerNotFound)),
        Some((val, _)) => {
            let read = Attempt { store: at.store.touch(entry.key@), ..at };
            match proof_outcome(entry, val, rq.payload, at.ledger[slot]) {
                Err(e) => (read, Err(e)),
                Ok(()) => (
                    Attempt {
                        ledger: read.ledger.update(slot, true),
                        calls: if entry.signature is None {
                            read.calls.push(
                                PolicyCall { slot: slot as usize, context: context as usize },
                            )
                        } else {
                            read.calls
                        },
                        ..read
                    },
                    Ok(val),
                ),
            }
        },
    }
}

/// Verifies the entry that was submitted under `key` for the operation number
/// `context`. A key that was not submitted is not found.
pub open spec fn verify_key(at: Attempt, rq: Request, key: KeyView, context: int) -> (
    Attempt,
    Result<ValView, Error>,
) {
    match slot_from(rq.entries, key, 0) {
        None => (at, Err(Error::SignerNotFound)),
        Some(slot) => verify_entry(at, rq, slot, context),
    }
}

/// Verifies the required co-signers from number `from` on, in order. A
/// co-signer that was not submitted ends it with `false`; one that does not
/// verify ends the attempt.
pub open spec fn cosigners_from(
    at: Attempt,
    rq: Request,
    required: Seq<KeyView>,
    from: int,
    context: int,
) -> (Attempt, Result<bool, Error>)
    decreases required.len() - from,
{
    if from < 0 || from >= required.len() {
        (at, Ok(true))
    } else {
        match slot_from(rq.entries, required[from], 0) {
            None => (at, Ok(false)),
            Some(slot) => {
                let (next, verified) = verify_entry(at, rq, slot, context);
                match verified {
                    Err(e) => (next, Err(e)),
                    Ok(_) => cosigners_from(next, rq, required, from + 1, context),
                }
            },
        }
    }
}

/// Whether the signer in `slot` authorizes the operation number `context`.
/// The entry is verified first. An unrestricted signer authorizes anything. A
/// scoped one authorizes what its scope has an entry for, short of calls on
/// the wallet itself other than its own removal, and with every required
/// co-signer submitted and verified.
pub open spec fn entry_authorizes(at: Attempt, rq: Request, slot: int, context: int) -> (
    Attempt,
    Result<bool, Error>,
) {
    let (seen, verified) = verify_entry(at, rq, slot, context);
    match verified {
        Err(e) => (seen, Err(e)),
        Ok(val) => if val.limits().len() == 0 {
            (seen, Ok(true))
        } else {
            match limit_from(val.limits(), context_target(rq.contexts[context], rq.wallet), 0) {
                None => (seen, Ok(false)),
                Some(required) => if !self_call_allowed(
                    rq.contexts[context],
                    rq.wallet,
                    rq.entries[slot].key@,
                ) {
                    (seen, Ok(false))
                } else {
                    match required {
                        None => (seen, Ok(true)),
                        Some(keys) => cosigners_from(seen, rq, keys, 0, context),
                    }
                },
            }
        },
    }
}

/// Looks from slot `from` on for the first entry whose signer authorizes the
/// operation number `context`.
pub open spec fn search_from(at: Attempt, rq: Request, context: int, from: int) -> (
    Attempt,
    Result<(), Error>,
)
    decreases rq.entries.len() - from,
{
    if from < 0 || from >= rq.entries.len() {
        (at, Err(Error::NotAuthorized))
    } else {
        let (next, authorized) = entry_authorizes(at, rq, from, context);
        match authorized {
            Err(e) => (next, Err(e)),
            Ok(true) => (next, Ok(())),
            Ok(false) => search_from(next, rq, context, from + 1),
        }
    }
}

/// Authorizes the requested operations from number `from` on, in order.
pub open spec fn contexts_from(at: Attempt, rq: Request, from: int) -> (Attempt, Result<(), Error>)
    decreases rq.contexts.len() - from,
{
    if from < 0 || from >= rq.contexts.len() {
        (at, Ok(()))
    } else {
        let (next, found) = search_from(at, rq, from, 0);
        match found {
            Err(e) => (next, Err(e)),
            Ok(()) => contexts_from(next, rq, from + 1),
        }
    }
}

/// Where an attempt starts: nothing verified, nothing asked.
pub open spec fn start(store: StoreView) -> Attempt {
    Attempt {
        store,
        ledger: Seq::new(MAX_SIGNATURES as nat, |i: int| false),
        calls: Seq::empty(),
    }
}

/// The whole attempt. More entries than the ledger has slots are refused
/// unseen. Else every operation needs a signer that authorizes it, and in the
/// end as many slots have to be marked as entries were submitted.
pub open spec fn authorize(store: StoreView, rq: Request) -> (Attempt, Result<(), Error>) {
    if rq.entries.len() > MAX_SIGNATURES {
        (start(store), Err(Error::TooManySignatures))
    } else {
        let (end, walked) = contexts_from(start(store), rq, 0);
        match walked {
            Err(e) => (end, Err(e)),
            Ok(()) => if count_marked(end.ledger) != rq.entries.len() {
                (end, Err(Error::ExtraSigners))
            } else {
                (end, Ok(()))
            },
        }
    }
}

} // verus!

verus! {

/// Whether the delegated policies have approved all that a grant depends on:
/// there is one answer for each approval asked, and each is a yes.
pub open spec fn all_approved(calls: Seq<PolicyCall>, approvals: Seq<bool>) -> bool {
    &&& approvals.len() == calls.len()
    &&& forall|i: int| 0 <= i < approvals.len() ==> #[trigger] approvals[i]
}

/// What becomes of a grant once the delegated policies have answered: it
/// stands if they have approved all that it depends on, and the attempt is
/// not authorized if one has not.
pub open spec fn settled(calls: Seq<PolicyCall>, approvals: Seq<bool>) -> Result<(), Error> {
    if all_approved(calls, approvals) {
        Ok(())
    } else {
        Err(Error::NotAuthorized)
    }
}

/// Whether the entry in `slot` comes from a registered signer and carries a
/// proof that holds.
pub open spec fn valid_entry(store: StoreView, rq: Request, slot: int) -> bool {
    match store.get(rq.entries[slot].key@) {
        Some((val, _)) => proof_outcome(rq.entries[slot], val, rq.payload, false) is Ok,
        None => false,
    }
}

/// What holds of an attempt wherever it stands: the store holds each key
/// once, the ledger has a slot for every entry and no mark beyond them, and
/// every marked slot holds a valid entry.
pub open spec fn steady(at: Attempt, rq: Request) -> bool {
    &&& at.store.wf()
    &&& at.ledger.len() == MAX_SIGNATURES
    &&& rq.entries.len() <= MAX_SIGNATURES
    &&& forall|j: int| rq.entries.len() <= j < MAX_SIGNATURES ==> !#[trigger] at.ledger[j]
    &&& forall|j: int|
        0 <= j < rq.entries.len() && #[trigger] at.ledger[j] ==> valid_entry(at.store, rq, j)
}

/// How a later stand of an attempt relates to an earlier one: every key reads
/// as before, no window is shorter and the count is as it was, a marked slot
/// stays marked, and the approvals asked so far are still asked, in their
/// order.
pub open spec fn follows(before: Attempt, after: Attempt) -> bool {
    &&& forall|k: KeyView| #[trigger] after.store.get(k) == before.store.get(k)
    &&& before.store.no_shorter_in(after.store)
    &&& after.store.count == before.store.count
    &&& after.store.max_ttl == before.store.max_ttl
    &&& after.ledger.len() == before.ledger.len()
    &&& forall|j: int|
        0 <= j < before.ledger.len() && #[trigger] before.ledger[j] ==> after.ledger[j]
    &&& before.calls.is_prefix_of(after.calls)
}

} // verus!
