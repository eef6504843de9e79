//! What holds of every authorization attempt.
use crate::auth::{
    authorize, context_target, contexts_from, cosigners_from, count_marked, entry_authorizes,
    follows, limit_from, proof_outcome, remove_name, search_from, self_call_allowed, settled,
    slot_from, start, steady, valid_entry, verify_entry, Attempt, PolicyCall, Request,
    MAX_SIGNATURES,
};
use crate::store::{law_touch_reads_same, StoreView};
use crate::types::{Arg, Context, Error, KeyView, SignatureEntry, ValView};
use vstd::prelude::*;

verus! {

/// Whether the delegated policy in `slot`, if the entry there is one, is asked
/// among `calls` to approve the operation number `context`.
pub open spec fn asked(calls: Seq<PolicyCall>, rq: Request, slot: int, context: int) -> bool {
    rq.entries[slot].signature is None ==> calls.contains(
        PolicyCall { slot: slot as usize, context: context as usize },
    )
}

/// What was asked stays asked as an attempt goes on.
pub proof fn law_asked_stays(before: Attempt, after: Attempt, rq: Request, slot: int, context: int)
    requires
        follows(before, after),
        asked(before.calls, rq, slot, context),
    ensures
        asked(after.calls, rq, slot, context),
{
    if rq.entries[slot].signature is None {
        let call = PolicyCall { slot: slot as usize, context: context as usize };
        let i = choose|i: int| 0 <= i < before.calls.len() && before.calls[i] == call;
        assert(after.calls[i] == call);
    }
}

/// The first slot found for a key is a slot of the entries, and holds that
/// key.
pub proof fn law_slot_found(entries: Seq<SignatureEntry>, key: KeyView, from: int)
    requires
        0 <= from,
    ensures
        slot_from(entries, key, from) matches Some(j) ==> from <= j < entries.len()
            && entries[j].key@ == key,
    decreases entries.len() - from,
{
    if from < entries.len() && entries[from].key@ != key {
        law_slot_found(entries, key, from + 1);
    }
}

/// Verifying one entry keeps an attempt steady, and changes nothing but
/// windows, one mark and the approvals asked.
pub proof fn law_verify_entry_steady(at: Attempt, rq: Request, slot: int, context: int)
    requires
        steady(at, rq),
        0 <= slot < rq.entries.len(),
    ensures
        steady(verify_entry(at, rq, slot, context).0, rq),
        follows(at, verify_entry(at, rq, slot, context).0),
        verify_entry(at, rq, slot, context).1 matches Ok(val) ==> {
            &&& verify_entry(at, rq, slot, context).0.ledger[slot]
            &&& asked(verify_entry(at, rq, slot, context).0.calls, rq, slot, context)
            &&& at.store.get(rq.entries[slot].key@) matches Some((v, _))
            &&& v == val
        },
{
    let key = rq.entries[slot].key@;
    let next = verify_entry(at, rq, slot, context).0;
    if verify_entry(at, rq, slot, context).1 is Ok && rq.entries[slot].signature is None {
        assert(next.calls[at.calls.len() as int] == PolicyCall {
            slot: slot as usize,
            context: context as usize,
        });
    }
    assert forall|k: KeyView| #[trigger] at.store.touch(key).get(k) == at.store.get(k) by {
        law_touch_reads_same(at.store, key, k);
    }
    law_touch_reads_same(at.store, key, key);
    assert forall|j: int| 0 <= j < rq.entries.len() && #[trigger] next.ledger[j] implies valid_entry(
        next.store,
        rq,
        j,
    ) by {
        assert(next.store.get(rq.entries[j].key@) == at.store.get(rq.entries[j].key@));
        if j != slot || at.ledger[j] {
            assert(at.ledger[j]);
        }
    }
}

/// Verifying co-signers keeps an attempt steady.
pub proof fn law_cosigners_steady(
    at: Attempt,
    rq: Request,
    required: Seq<KeyView>,
    from: int,
    context: int,
)
    requires
        steady(at, rq),
        0 <= from,
    ensures
        steady(cosigners_from(at, rq, required, from, context).0, rq),
        follows(at, cosigners_from(at, rq, required, from, context).0),
    decreases required.len() - from,
{
    if from < required.len() {
        law_slot_found(rq.entries, required[from], 0);
        match slot_from(rq.entries, required[from], 0) {
            None => {},
            Some(slot) => {
                law_verify_entry_steady(at, rq, slot, context);
                let (next, verified) = verify_entry(at, rq, slot, context);
                if verified is Ok {
                    law_cosigners_steady(next, rq, required, from + 1, context);
                }
            },
        }
    }
}

/// Asking one signer keeps an attempt steady.
pub proof fn law_entry_steady(at: Attempt, rq: Request, slot: int, context: int)
    requires
        steady(at, rq),
        0 <= slot < rq.entries.len(),
    ensures
        steady(entry_authorizes(at, rq, slot, context).0, rq),
        follows(at, entry_authorizes(at, rq, slot, context).0),
{
    law_verify_entry_steady(at, rq, slot, context);
    let (seen, verified) = verify_entry(at, rq, slot, context);
    match verified {
        Err(_) => {},
        Ok(val) => {
            match limit_from(
                val.limits(),
                context_target(rq.contexts[context], rq.wallet),
                0,
            ) {
                Some(Some(keys)) => {
                    law_cosigners_steady(seen, rq, keys, 0, context);
                },
                _ => {},
            }
        },
    }
}

/// Searching for a signer keeps an attempt steady.
pub proof fn law_search_steady(at: Attempt, rq: Request, context: int, from: int)
    requires
        steady(at, rq),
        0 <= from,
    ensures
        steady(search_from(at, rq, context, from).0, rq),
        follows(at, search_from(at, rq, context, from).0),
    decreases rq.entries.len() - from,
{
    if from < rq.entries.len() {
        law_entry_steady(at, rq, from, context);
        let (next, authorized) = entry_authorizes(at, rq, from, context);
        if authorized == Ok::<bool, Error>(false) {
            law_search_steady(next, rq, context, from + 1);
        }
    }
}

/// Walking the requested operations keeps an attempt steady.
pub proof fn law_contexts_steady(at: Attempt, rq: Request, from: int)
    requires
        steady(at, rq),
        0 <= from,
    ensures
        steady(contexts_from(at, rq, from).0, rq),
        follows(at, contexts_from(at, rq, from).0),
    decreases rq.contexts.len() - from,
{
    if from < rq.contexts.len() {
        law_search_steady(at, rq, from, 0);
        let (next, found) = search_from(at, rq, from, 0);
        if found is Ok {
            law_contexts_steady(next, rq, from + 1);
        }
    }
}

/// An attempt changes nothing in the store but windows, and shortens none:
/// whatever it decides, every key reads afterwards as it did before, every
/// record has the window it had or a longer one, the count is as it was, and
/// the store still holds each key once.
pub proof fn law_attempt_only_renews(store: StoreView, rq: Request)
    requires
        store.wf(),
    ensures
        authorize(store, rq).0.store.wf(),
        forall|k: KeyView| #[trigger] authorize(store, rq).0.store.get(k) == store.get(k),
        store.no_shorter_in(authorize(store, rq).0.store),
        authorize(store, rq).0.store.count == store.count,
        authorize(store, rq).0.store.max_ttl == store.max_ttl,
{
    if rq.entries.len() <= MAX_SIGNATURES {
        law_contexts_steady(start(store), rq, 0);
    }
}

/// A ledger with no mark counts none.
pub proof fn law_count_unmarked(n: nat)
    ensures
        count_marked(Seq::new(n, |i: int| false)) == 0,
    decreases n,
{
    if n > 0 {
        assert(Seq::new(n, |i: int| false).drop_last() =~= Seq::new((n - 1) as nat, |i: int| false));
        law_count_unmarked((n - 1) as nat);
    }
}

/// A slot is counted once: marking it adds one to the count if it was not
/// marked, and nothing if it was.
pub proof fn law_mark_counts_once(ledger: Seq<bool>, slot: int)
    requires
        0 <= slot < ledger.len(),
    ensures
        count_marked(ledger.update(slot, true)) == count_marked(ledger) + if ledger[slot] {
            0nat
        } else {
            1nat
        },
    decreases ledger.len(),
{
    let after = ledger.update(slot, true);
    if slot == ledger.len() - 1 {
        assert(after.drop_last() =~= ledger.drop_last());
    } else {
        assert(after.drop_last() =~= ledger.drop_last().update(slot, true));
        law_mark_counts_once(ledger.drop_last(), slot);
    }
}

/// With no mark beyond the first `n` slots, the count is `n` at most, and it
/// is `n` exactly where each of the first `n` slots is marked.
pub proof fn law_count_is_full(ledger: Seq<bool>, n: int)
    requires
        0 <= n <= ledger.len(),
        forall|j: int| n <= j < ledger.len() ==> !#[trigger] ledger[j],
    ensures
        count_marked(ledger) <= n,
        count_marked(ledger) == n <==> forall|j: int| 0 <= j < n ==> #[trigger] ledger[j],
    decreases ledger.len(),
{
    if ledger.len() > 0 {
        let rest = ledger.drop_last();
        if ledger.len() > n {
            assert(!ledger[ledger.len() - 1]);
            law_count_is_full(rest, n);
            assert forall|j: int| 0 <= j < n implies rest[j] == ledger[j] by {}
            if forall|j: int| 0 <= j < n ==> #[trigger] ledger[j] {
                assert forall|j: int| 0 <= j < n implies #[trigger] rest[j] by {
                    assert(ledger[j]);
                }
            }
            if forall|j: int| 0 <= j < n ==> #[trigger] rest[j] {
                assert forall|j: int| 0 <= j < n implies #[trigger] ledger[j] by {
                    assert(rest[j]);
                }
            }
        } else {
            law_count_is_full(rest, n - 1);
            if forall|j: int| 0 <= j < n ==> #[trigger] ledger[j] {
                assert forall|j: int| 0 <= j < n - 1 implies #[trigger] rest[j] by {
                    assert(ledger[j]);
                }
                assert(ledger[n - 1]);
            }
            if ledger.last() && forall|j: int| 0 <= j < n - 1 ==> #[trigger] rest[j] {
                assert forall|j: int| 0 <= j < n implies #[trigger] ledger[j] by {
                    if j < n - 1 {
                        assert(rest[j]);
                    }
                }
            }
            if count_marked(ledger) == n {
                assert(ledger.last());
            }
        }
    }
}

/// More entries than the ledger has slots are refused, whatever they hold.
pub proof fn law_too_many_signatures(store: StoreView, rq: Request)
    requires
        rq.entries.len() > MAX_SIGNATURES,
    ensures
        authorize(store, rq).1 == Err::<(), Error>(Error::TooManySignatures),
{
}

/// A granted attempt has used every submitted entry: each comes from a
/// registered signer and carries a proof that holds. An attempt that found a
/// signer for every operation is refused for its unused entries alone.
pub proof fn law_granted_uses_every_entry(store: StoreView, rq: Request)
    requires
        store.wf(),
        rq.entries.len() <= MAX_SIGNATURES,
    ensures
        authorize(store, rq).1 is Ok ==> forall|j: int|
            0 <= j < rq.entries.len() ==> authorize(store, rq).0.ledger[j] && #[trigger] valid_entry(
                store,
                rq,
                j,
            ),
        contexts_from(start(store), rq, 0).1 is Ok ==> (authorize(store, rq).1 is Ok <==> forall|
            j: int,
        |
            0 <= j < rq.entries.len() ==> #[trigger] contexts_from(start(store), rq, 0).0.ledger[j]),
        contexts_from(start(store), rq, 0).1 is Ok && !(authorize(store, rq).1 is Ok) ==> authorize(
            store,
            rq,
        ).1 == Err::<(), Error>(Error::ExtraSigners),
{
    law_contexts_steady(start(store), rq, 0);
    let end = contexts_from(start(store), rq, 0).0;
    law_count_is_full(end.ledger, rq.entries.len() as int);
    if authorize(store, rq).1 is Ok {
        assert forall|j: int| 0 <= j < rq.entries.len() implies authorize(store, rq).0.ledger[j]
            && #[trigger] valid_entry(store, rq, j) by {
            assert(end.ledger[j]);
            assert(valid_entry(end.store, rq, j));
            assert(end.store.get(rq.entries[j].key@) == store.get(rq.entries[j].key@));
        }
    }
}

/// A marked slot is not checked again: whatever its proof holds, the verdict
/// on it can only be about the kind of proof, never about its content.
pub proof fn law_marked_entry_not_checked_again(
    entry: SignatureEntry,
    val: ValView,
    payload: Seq<u8>,
)
    ensures
        proof_outcome(entry, val, payload, true) is Ok || proof_outcome(entry, val, payload, true)
            == Err::<(), Error>(Error::InvalidSignatureForSignerKey) || proof_outcome(
            entry,
            val,
            payload,
            true,
        ) == Err::<(), Error>(Error::SignatureKeyValueMismatch),
        proof_outcome(entry, val, payload, false) is Ok ==> proof_outcome(entry, val, payload, true)
            is Ok,
{
}

/// The approvals that an attempt asks of the first entry over the first
/// `upto` operations, if that entry is a delegated policy that is asked for
/// each: one for every operation, in order.
pub open spec fn asked_of_first(entry: SignatureEntry, upto: int) -> Seq<PolicyCall> {
    if entry.signature is None {
        Seq::new(upto as nat, |c: int| PolicyCall { slot: 0, context: c as usize })
    } else {
        Seq::empty()
    }
}

/// Whether the first entry comes from a registered signer without a scope.
pub open spec fn first_is_unrestricted(store: StoreView, rq: Request) -> bool {
    &&& rq.entries.len() >= 1
    &&& store.get(rq.entries[0].key@) matches Some((val, _))
    &&& val.limits().len() == 0
}

/// The verdict on the proof of the first entry, taken by itself.
pub open spec fn first_proof(store: StoreView, rq: Request) -> Result<(), Error> {
    match store.get(rq.entries[0].key@) {
        Some((val, _)) => proof_outcome(rq.entries[0], val, rq.payload, false),
        None => Err(Error::SignerNotFound),
    }
}

proof fn lemma_first_signer_walk(at: Attempt, rq: Request, c: int)
    requires
        steady(at, rq),
        0 <= c <= rq.contexts.len(),
        first_is_unrestricted(at.store, rq),
        first_proof(at.store, rq) is Ok,
        at.calls == asked_of_first(rq.entries[0], c),
    ensures
        contexts_from(at, rq, c).1 is Ok,
        contexts_from(at, rq, c).0.ledger == if c < rq.contexts.len() {
            at.ledger.update(0, true)
        } else {
            at.ledger
        },
        contexts_from(at, rq, c).0.calls == asked_of_first(rq.entries[0], rq.contexts.len() as int),
    decreases rq.contexts.len() - c,
{
    if c < rq.contexts.len() {
        let entry = rq.entries[0];
        let val = at.store.get(entry.key@).unwrap().0;
        law_marked_entry_not_checked_again(entry, val, rq.payload);
        law_verify_entry_steady(at, rq, 0, c);
        let next = verify_entry(at, rq, 0, c).0;
        assert(entry_authorizes(at, rq, 0, c) == (next, Ok::<bool, Error>(true)));
        assert(search_from(at, rq, c, 0) == (next, Ok::<(), Error>(())));
        assert(next.store.get(entry.key@) == at.store.get(entry.key@));
        assert(next.calls =~= asked_of_first(entry, c + 1));
        lemma_first_signer_walk(next, rq, c + 1);
        assert(next.ledger.update(0, true) =~= at.ledger.update(0, true));
    }
}

/// Where the first entry comes from a registered signer without a scope, it
/// decides the attempt: its proof is checked once and the signer authorizes
/// every operation. If the proof fails, the attempt fails with the proof's
/// error. If it holds, the attempt is granted where the entry stands alone,
/// and refused for the unused entries, which it never looks at, where others
/// were submitted with it. A delegated policy is asked once for each
/// operation, in order.
pub proof fn law_first_signer_decides(store: StoreView, rq: Request)
    requires
        store.wf(),
        rq.entries.len() <= MAX_SIGNATURES,
        rq.contexts.len() >= 1,
        first_is_unrestricted(store, rq),
    ensures
        authorize(store, rq).1 == match first_proof(store, rq) {
            Err(e) => Err::<(), Error>(e),
            Ok(()) => if rq.entries.len() == 1 {
                Ok::<(), Error>(())
            } else {
                Err::<(), Error>(Error::ExtraSigners)
            },
        },
        first_proof(store, rq) is Ok ==> authorize(store, rq).0.calls == asked_of_first(
            rq.entries[0],
            rq.contexts.len() as int,
        ),
{
    let at = start(store);
    if first_proof(store, rq) is Ok {
        assert(at.calls =~= asked_of_first(rq.entries[0], 0));
        lemma_first_signer_walk(at, rq, 0);
        law_count_unmarked(MAX_SIGNATURES as nat);
        law_mark_counts_once(at.ledger, 0);
    } else {
        assert(search_from(at, rq, 0, 0).1 == Err::<(), Error>(first_proof(store, rq)->Err_0));
    }
}

/// On an account with a single signer without a scope, an attempt that
/// submits that signer's entry alone is granted for any operations, one at
/// least, exactly where the proof holds; where it does not, the attempt
/// fails with the error of the signature check.
pub proof fn law_single_signer(store: StoreView, rq: Request)
    requires
        store.wf(),
        rq.entries.len() == 1,
        rq.contexts.len() >= 1,
        first_is_unrestricted(store, rq),
    ensures
        authorize(store, rq).1 == first_proof(store, rq),
{
    law_first_signer_decides(store, rq);
}

/// An entry submitted beside one that authorizes every operation by itself
/// is never used, and the attempt is refused for it.
pub proof fn law_extra_signer_refused(store: StoreView, rq: Request)
    requires
        store.wf(),
        2 <= rq.entries.len() <= MAX_SIGNATURES,
        rq.contexts.len() >= 1,
        first_is_unrestricted(store, rq),
        first_proof(store, rq) is Ok,
    ensures
        authorize(store, rq).1 == Err::<(), Error>(Error::ExtraSigners),
{
    law_first_signer_decides(store, rq);
}

/// A delegated policy that authorizes several operations is asked for each
/// of them: the approval of one operation never stands for another.
pub proof fn law_policy_asked_for_each_context(store: StoreView, rq: Request, c: int)
    requires
        store.wf(),
        rq.entries.len() == 1,
        rq.entries[0].signature is None,
        first_is_unrestricted(store, rq),
        first_proof(store, rq) is Ok,
        0 <= c < rq.contexts.len(),
    ensures
        authorize(store, rq).1 is Ok,
        authorize(store, rq).0.calls.len() == rq.contexts.len(),
        authorize(store, rq).0.calls[c] == (PolicyCall { slot: 0, context: c as usize }),
{
    law_first_signer_decides(store, rq);
}

/// One refusal refuses the attempt: the approval of one operation does not
/// make up for the refusal of another.
pub proof fn law_one_refusal_refuses(calls: Seq<PolicyCall>, approvals: Seq<bool>, i: int)
    requires
        0 <= i < approvals.len(),
        !approvals[i],
    ensures
        settled(calls, approvals) == Err::<(), Error>(Error::NotAuthorized),
{
}

/// Where the co-signers from number `from` on are found verified, each of
/// them was submitted, its slot is marked, it comes from a registered signer
/// with a proof that holds, and, if it is a delegated policy, it is asked to
/// approve this very operation.
pub proof fn law_cosigners_all_verified(
    at: Attempt,
    rq: Request,
    required: Seq<KeyView>,
    from: int,
    context: int,
)
    requires
        steady(at, rq),
        0 <= from,
        cosigners_from(at, rq, required, from, context).1 == Ok::<bool, Error>(true),
    ensures
        forall|k: int|
            from <= k < required.len() ==> {
                &&& #[trigger] slot_from(rq.entries, required[k], 0) matches Some(j)
                &&& cosigners_from(at, rq, required, from, context).0.ledger[j]
                &&& valid_entry(at.store, rq, j)
                &&& asked(cosigners_from(at, rq, required, from, context).0.calls, rq, j, context)
            },
    decreases required.len() - from,
{
    if from < required.len() {
        law_slot_found(rq.entries, required[from], 0);
        let slot = slot_from(rq.entries, required[from], 0).unwrap();
        law_verify_entry_steady(at, rq, slot, context);
        let next = verify_entry(at, rq, slot, context).0;
        let end = cosigners_from(at, rq, required, from, context).0;
        law_cosigners_steady(next, rq, required, from + 1, context);
        law_cosigners_all_verified(next, rq, required, from + 1, context);
        assert forall|k: int| from <= k < required.len() implies {
            &&& #[trigger] slot_from(rq.entries, required[k], 0) matches Some(j)
            &&& end.ledger[j]
            &&& valid_entry(at.store, rq, j)
            &&& asked(end.calls, rq, j, context)
        } by {
            law_slot_found(rq.entries, required[k], 0);
            let j = slot_from(rq.entries, required[k], 0).unwrap();
            if k == from {
                assert(next.ledger[j]);
                law_asked_stays(next, end, rq, j, context);
            }
            assert(end.ledger[j]);
            assert(valid_entry(end.store, rq, j));
            assert(end.store.get(rq.entries[j].key@) == next.store.get(rq.entries[j].key@));
            assert(next.store.get(rq.entries[j].key@) == at.store.get(rq.entries[j].key@));
        }
    }
}

/// Whether the signer in `slot` is registered with a scope.
pub open spec fn is_scoped(store: StoreView, rq: Request, slot: int) -> bool {
    &&& store.get(rq.entries[slot].key@) matches Some((val, _))
    &&& val.limits().len() > 0
}

/// What the scope of the signer in `slot` says of the target of the
/// operation number `context`.
pub open spec fn scope_says(store: StoreView, rq: Request, slot: int, context: int) -> Option<
    Option<Seq<KeyView>>,
> {
    limit_from(
        store.get(rq.entries[slot].key@).unwrap().0.limits(),
        context_target(rq.contexts[context], rq.wallet),
        0,
    )
}

/// Whether each of the co-signers `keys` was submitted with an entry that
/// comes from a registered signer and carries a proof that holds, and each
/// delegated policy among them is asked among `calls` to approve the
/// operation number `context`.
pub open spec fn cosigned(
    store: StoreView,
    calls: Seq<PolicyCall>,
    rq: Request,
    keys: Seq<KeyView>,
    context: int,
) -> bool {
    forall|k: int|
        0 <= k < keys.len() ==> {
            &&& #[trigger] slot_from(rq.entries, keys[k], 0) matches Some(j)
            &&& valid_entry(store, rq, j)
            &&& asked(calls, rq, j, context)
        }
}

/// A scoped signer authorizes no operation on a target that its scope has no
/// entry for. Where the entry requires co-signers, the signer authorizes the
/// operation only if each of them was submitted too and verified, and each
/// delegated policy among them is asked to approve this very operation.
pub proof fn law_scoped_signer(at: Attempt, rq: Request, slot: int, context: int)
    requires
        steady(at, rq),
        0 <= slot < rq.entries.len(),
        is_scoped(at.store, rq, slot),
    ensures
        scope_says(at.store, rq, slot, context) is None ==> entry_authorizes(
            at,
            rq,
            slot,
            context,
        ).1 != Ok::<bool, Error>(true),
        scope_says(at.store, rq, slot, context) matches Some(Some(keys)) ==> (entry_authorizes(
            at,
            rq,
            slot,
            context,
        ).1 == Ok::<bool, Error>(true) ==> cosigned(
            at.store,
            entry_authorizes(at, rq, slot, context).0.calls,
            rq,
            keys,
            context,
        )),
{
    law_verify_entry_steady(at, rq, slot, context);
    let (seen, verified) = verify_entry(at, rq, slot, context);
    match scope_says(at.store, rq, slot, context) {
        Some(Some(keys)) => {
            if entry_authorizes(at, rq, slot, context).1 == Ok::<bool, Error>(true) {
                law_cosigners_all_verified(seen, rq, keys, 0, context);
                let end = entry_authorizes(at, rq, slot, context).0;
                assert forall|k: int| 0 <= k < keys.len() implies {
                    &&& #[trigger] slot_from(rq.entries, keys[k], 0) matches Some(j)
                    &&& valid_entry(at.store, rq, j)
                    &&& asked(end.calls, rq, j, context)
                } by {
                    law_slot_found(rq.entries, keys[k], 0);
                    let j = slot_from(rq.entries, keys[k], 0).unwrap();
                    assert(valid_entry(seen.store, rq, j));
                    assert(seen.store.get(rq.entries[j].key@) == at.store.get(rq.entries[j].key@));
                }
            }
        },
        _ => {},
    }
}

/// Whether the first argument of the call is a signer key other than `key`.
pub open spec fn removes_other_key(context: Context, key: KeyView) -> bool {
    match context {
        Context::Contract(call) => call.args@.len() > 0 && match call.args@[0] {
            Arg::Key(k) => k@ != key,
            Arg::Other(_) => false,
        },
        Context::CreateContractHostFn => false,
    }
}

/// A scoped signer authorizes one call on the wallet itself only: the removal
/// of its own key. A call of another name, or the removal of another key, it
/// does not authorize. The removal of its own key it does authorize where
/// its proof holds and its scope requires no co-signer for the wallet.
pub proof fn law_self_call_guard(at: Attempt, rq: Request, slot: int, context: int)
    requires
        steady(at, rq),
        0 <= slot < rq.entries.len(),
        is_scoped(at.store, rq, slot),
        rq.contexts[context] matches Context::Contract(call) && call.contract@ == rq.wallet,
    ensures
        !self_call_allowed(rq.contexts[context], rq.wallet, rq.entries[slot].key@)
            ==> entry_authorizes(at, rq, slot, context).1 != Ok::<bool, Error>(true),
        rq.contexts[context]->Contract_0.fn_name@ != remove_name() ==> !self_call_allowed(
            rq.contexts[context],
            rq.wallet,
            rq.entries[slot].key@,
        ),
        removes_other_key(rq.contexts[context], rq.entries[slot].key@) ==> !self_call_allowed(
            rq.contexts[context],
            rq.wallet,
            rq.entries[slot].key@,
        ),
        (self_call_allowed(rq.contexts[context], rq.wallet, rq.entries[slot].key@) && scope_says(
            at.store,
            rq,
            slot,
            context,
        ) == Some(None::<Seq<KeyView>>) && verify_entry(at, rq, slot, context).1 is Ok)
            ==> entry_authorizes(at, rq, slot, context).1 == Ok::<bool, Error>(true),
{
    law_verify_entry_steady(at, rq, slot, context);
}

/// Whether the entry in `slot` covers the operation number `context`: it
/// comes from a registered signer with a proof that holds, and that signer
/// either has no scope, or has a scope with an entry for the operation's
/// target, under which the operation is no forbidden call on the wallet
/// itself and every required co-signer was submitted with a valid entry of
/// its own. Each delegated policy in this, the signer itself or a co-signer,
/// is asked among `calls` to approve this very operation.
pub open spec fn covers(
    store: StoreView,
    calls: Seq<PolicyCall>,
    rq: Request,
    slot: int,
    context: int,
) -> bool {
    &&& 0 <= slot < rq.entries.len()
    &&& valid_entry(store, rq, slot)
    &&& asked(calls, rq, slot, context)
    &&& !is_scoped(store, rq, slot) || match scope_says(store, rq, slot, context) {
        None => false,
        Some(required) => {
            &&& self_call_allowed(rq.contexts[context], rq.wallet, rq.entries[slot].key@)
            &&& required matches Some(keys) ==> cosigned(store, calls, rq, keys, context)
        },
    }
}

/// What covers an operation at one stand of an attempt covers it at every
/// later one.
pub proof fn law_covers_stays(
    before: Attempt,
    after: Attempt,
    rq: Request,
    slot: int,
    context: int,
)
    requires
        follows(before, after),
        covers(before.store, before.calls, rq, slot, context),
    ensures
        covers(after.store, after.calls, rq, slot, context),
{
    assert(after.store.get(rq.entries[slot].key@) == before.store.get(rq.entries[slot].key@));
    law_asked_stays(before, after, rq, slot, context);
    if is_scoped(before.store, rq, slot) {
        match scope_says(before.store, rq, slot, context) {
            Some(Some(keys)) => {
                assert forall|k: int| 0 <= k < keys.len() implies {
                    &&& #[trigger] slot_from(rq.entries, keys[k], 0) matches Some(j)
                    &&& valid_entry(after.store, rq, j)
                    &&& asked(after.calls, rq, j, context)
                } by {
                    let j = slot_from(rq.entries, keys[k], 0).unwrap();
                    assert(after.store.get(rq.entries[j].key@) == before.store.get(
                        rq.entries[j].key@,
                    ));
                    law_asked_stays(before, after, rq, j, context);
                }
            },
            _ => {},
        }
    }
}

/// Two stores under which every key reads the same cover the same
/// operations.
pub proof fn law_covers_by_reads(
    a: StoreView,
    b: StoreView,
    calls: Seq<PolicyCall>,
    rq: Request,
    slot: int,
    context: int,
)
    requires
        forall|k: KeyView| #[trigger] a.get(k) == b.get(k),
        covers(a, calls, rq, slot, context),
    ensures
        covers(b, calls, rq, slot, context),
{
    assert(a.get(rq.entries[slot].key@) == b.get(rq.entries[slot].key@));
    if is_scoped(a, rq, slot) {
        match scope_says(a, rq, slot, context) {
            Some(Some(keys)) => {
                assert forall|k: int| 0 <= k < keys.len() implies {
                    &&& #[trigger] slot_from(rq.entries, keys[k], 0) matches Some(j)
                    &&& valid_entry(b, rq, j)
                    &&& asked(calls, rq, j, context)
                } by {
                    let j = slot_from(rq.entries, keys[k], 0).unwrap();
                    assert(a.get(rq.entries[j].key@) == b.get(rq.entries[j].key@));
                }
            },
            _ => {},
        }
    }
}

/// A signer that is found to authorize an operation covers it.
pub proof fn law_authorizing_entry_covers(at: Attempt, rq: Request, slot: int, context: int)
    requires
        steady(at, rq),
        0 <= slot < rq.entries.len(),
        entry_authorizes(at, rq, slot, context).1 == Ok::<bool, Error>(true),
    ensures
        covers(
            entry_authorizes(at, rq, slot, context).0.store,
            entry_authorizes(at, rq, slot, context).0.calls,
            rq,
            slot,
            context,
        ),
{
    law_verify_entry_steady(at, rq, slot, context);
    law_entry_steady(at, rq, slot, context);
    let seen = verify_entry(at, rq, slot, context).0;
    let end = entry_authorizes(at, rq, slot, context).0;
    assert(seen.ledger[slot]);
    assert(valid_entry(seen.store, rq, slot));
    assert(seen.store.get(rq.entries[slot].key@) == at.store.get(rq.entries[slot].key@));
    assert(end.store.get(rq.entries[slot].key@) == at.store.get(rq.entries[slot].key@));
    if is_scoped(at.store, rq, slot) {
        law_scoped_signer(at, rq, slot, context);
        match scope_says(at.store, rq, slot, context) {
            Some(Some(keys)) => {
                law_cosigners_steady(seen, rq, keys, 0, context);
                law_asked_stays(seen, end, rq, slot, context);
                assert forall|k: int| 0 <= k < keys.len() implies {
                    &&& #[trigger] slot_from(rq.entries, keys[k], 0) matches Some(j)
                    &&& valid_entry(end.store, rq, j)
                    &&& asked(end.calls, rq, j, context)
                } by {
                    let j = slot_from(rq.entries, keys[k], 0).unwrap();
                    assert(end.store.get(rq.entries[j].key@) == at.store.get(rq.entries[j].key@));
                }
            },
            _ => {},
        }
    }
}

/// A search that finds a signer has found one that covers the operation.
pub proof fn law_found_signer_covers(at: Attempt, rq: Request, context: int, from: int)
    requires
        steady(at, rq),
        0 <= from,
        search_from(at, rq, context, from).1 is Ok,
    ensures
        exists|slot: int|
            from <= slot && #[trigger] covers(
                search_from(at, rq, context, from).0.store,
                search_from(at, rq, context, from).0.calls,
                rq,
                slot,
                context,
            ),
    decreases rq.entries.len() - from,
{
    let (next, authorized) = entry_authorizes(at, rq, from, context);
    let end = search_from(at, rq, context, from).0;
    if authorized == Ok::<bool, Error>(true) {
        law_authorizing_entry_covers(at, rq, from, context);
        assert(covers(end.store, end.calls, rq, from, context));
    } else {
        law_entry_steady(at, rq, from, context);
        law_found_signer_covers(next, rq, context, from + 1);
        let slot = choose|slot: int|
            from + 1 <= slot && #[trigger] covers(end.store, end.calls, rq, slot, context);
        assert(covers(end.store, end.calls, rq, slot, context));
    }
}

/// A walk that ends well has found, for each operation it walked, a signer
/// that covers it.
pub proof fn law_walk_covers(at: Attempt, rq: Request, from: int, context: int)
    requires
        steady(at, rq),
        0 <= from <= context < rq.contexts.len(),
        contexts_from(at, rq, from).1 is Ok,
    ensures
        exists|slot: int| #[trigger]
            covers(
                contexts_from(at, rq, from).0.store,
                contexts_from(at, rq, from).0.calls,
                rq,
                slot,
                context,
            ),
    decreases rq.contexts.len() - from,
{
    let end = contexts_from(at, rq, from).0;
    law_search_steady(at, rq, from, 0);
    let next = search_from(at, rq, from, 0).0;
    if from == context {
        law_found_signer_covers(at, rq, context, 0);
        let slot = choose|slot: int| 0 <= slot && #[trigger] covers(
            next.store,
            next.calls,
            rq,
            slot,
            context,
        );
        law_contexts_steady(next, rq, from + 1);
        law_covers_stays(next, end, rq, slot, context);
        assert(covers(end.store, end.calls, rq, slot, context));
    } else {
        law_walk_covers(next, rq, from + 1, context);
    }
}

/// There is no partial authorization: where an attempt is granted, every
/// requested operation is covered by one submitted entry at least, from a
/// registered signer whose proof holds and whose scope admits the
/// operation, with every co-signer that the scope requires. And each
/// delegated policy that the grant rests on for an operation is asked to
/// approve that very operation, and not another.
pub proof fn law_granted_covers_every_context(store: StoreView, rq: Request, context: int)
    requires
        store.wf(),
        authorize(store, rq).1 is Ok,
        0 <= context < rq.contexts.len(),
    ensures
        exists|slot: int| #[trigger] covers(store, authorize(store, rq).0.calls, rq, slot, context),
{
    let end = contexts_from(start(store), rq, 0).0;
    law_walk_covers(start(store), rq, 0, context);
    law_contexts_steady(start(store), rq, 0);
    let slot = choose|slot: int| #[trigger] covers(end.store, end.calls, rq, slot, context);
    law_covers_by_reads(end.store, store, end.calls, rq, slot, context);
    assert(covers(store, authorize(store, rq).0.calls, rq, slot, context));
}

} // verus!
