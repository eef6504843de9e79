//! What holds of scopes, of co-signers and of entries taken one at a time.
use crate::auth::{
    authorize, contexts_from, cosigners_from, count_marked, distinct_keys, distinct_targets,
    entry_authorizes, limit_from, search_from, self_call_allowed, slot_from, start, steady,
    valid_entry, verify_entry, verify_key, Attempt, PolicyCall, Request, MAX_SIGNATURES,
};
use crate::laws::{
    asked, is_scoped, law_asked_stays, law_count_unmarked, law_mark_counts_once,
    law_marked_entry_not_checked_again, law_verify_entry_steady, scope_says,
};
use crate::store::StoreView;
use crate::types::{Error, KeyView, LimitView, SignatureEntry, ValView};
use vstd::prelude::*;

verus! {

/// A key that no entry was submitted under has no slot, and every other key
/// has one.
pub proof fn law_slot_absent(entries: Seq<SignatureEntry>, key: KeyView, from: int)
    requires
        0 <= from,
    ensures
        slot_from(entries, key, from) is None <==> forall|j: int|
            from <= j < entries.len() ==> (#[trigger] entries[j]).key@ != key,
    decreases entries.len() - from,
{
    if from < entries.len() {
        law_slot_absent(entries, key, from + 1);
        if entries[from].key@ != key {
            if slot_from(entries, key, from) is None {
                assert forall|j: int| from <= j < entries.len() implies (#[trigger] entries[j]).key@
                    != key by {
                    if j > from {
                        assert(entries[j].key@ != key);
                    }
                }
            }
        }
    }
}

/// Where no key is submitted twice, every entry is found at its own slot.
pub proof fn law_distinct_key_has_its_slot(entries: Seq<SignatureEntry>, slot: int, from: int)
    requires
        distinct_keys(entries),
        0 <= from <= slot < entries.len(),
    ensures
        slot_from(entries, entries[slot].key@, from) == Some(slot),
    decreases slot - from,
{
    if from < slot {
        assert(entries[from].key@ != entries[slot].key@);
        law_distinct_key_has_its_slot(entries, slot, from + 1);
    }
}

/// The entry of a scope that decides for a target is the first one for it.
pub proof fn law_first_entry_decides(limits: Seq<LimitView>, target: Seq<u8>, from: int)
    requires
        0 <= from,
    ensures
        limit_from(limits, target, from) is None <==> forall|j: int|
            from <= j < limits.len() ==> (#[trigger] limits[j]).target != target,
        limit_from(limits, target, from) matches Some(required) ==> exists|i: int|
            {
                &&& from <= i < limits.len()
                &&& (#[trigger] limits[i]).target == target
                &&& limits[i].required == required
                &&& forall|j: int| from <= j < i ==> (#[trigger] limits[j]).target != target
            },
    decreases limits.len() - from,
{
    if from < limits.len() {
        if limits[from].target == target {
            assert(limits[from].required == limit_from(limits, target, from)->Some_0);
        } else {
            law_first_entry_decides(limits, target, from + 1);
            if limit_from(limits, target, from) is None {
                assert forall|j: int| from <= j < limits.len() implies (#[trigger] limits[j]).target
                    != target by {
                    if j > from {
                        assert(limits[j].target != target);
                    }
                }
            } else {
                let i = choose|i: int|
                    {
                        &&& from + 1 <= i < limits.len()
                        &&& (#[trigger] limits[i]).target == target
                        &&& limits[i].required == limit_from(limits, target, from + 1)->Some_0
                        &&& forall|j: int|
                            from + 1 <= j < i ==> (#[trigger] limits[j]).target != target
                    };
                assert forall|j: int| from <= j < i implies (#[trigger] limits[j]).target
                    != target by {
                    if j > from {
                        assert(limits[j].target != target);
                    }
                }
                assert(limits[i].target == target);
            }
        }
    }
}

/// Where no target has two entries, every entry of a scope decides for its
/// target.
pub proof fn law_distinct_target_has_its_entry(limits: Seq<LimitView>, at: int, from: int)
    requires
        distinct_targets(limits),
        0 <= from <= at < limits.len(),
    ensures
        limit_from(limits, limits[at].target, from) == Some(limits[at].required),
    decreases at - from,
{
    if from < at {
        assert(limits[from].target != limits[at].target);
        law_distinct_target_has_its_entry(limits, at, from + 1);
    }
}

/// A key that was not submitted cannot be verified: it is not found, and
/// nothing has changed.
pub proof fn law_unsubmitted_key_not_found(at: Attempt, rq: Request, key: KeyView, context: int)
    requires
        forall|j: int| 0 <= j < rq.entries.len() ==> (#[trigger] rq.entries[j]).key@ != key,
    ensures
        verify_key(at, rq, key, context) == (
            at,
            Err::<ValView, Error>(Error::SignerNotFound),
        ),
{
    law_slot_absent(rq.entries, key, 0);
}

/// A registered delegated policy that submits no proof verifies, marked
/// before or not: its slot is marked afterwards, and it is asked once more,
/// for this very operation. Nothing else is asked.
pub proof fn law_policy_entry_asked(at: Attempt, rq: Request, slot: int, context: int)
    requires
        rq.entries[slot].key is Policy,
        rq.entries[slot].signature is None,
        at.store.get(rq.entries[slot].key@) is Some,
    ensures
        verify_entry(at, rq, slot, context).1 is Ok,
        verify_entry(at, rq, slot, context).0.ledger == at.ledger.update(slot, true),
        verify_entry(at, rq, slot, context).0.calls == at.calls.push(
            PolicyCall { slot: slot as usize, context: context as usize },
        ),
        verify_entry(at, rq, slot, context).0.store == at.store.touch(rq.entries[slot].key@),
{
}

/// An entry that brings a proof asks nothing of anybody.
pub proof fn law_signed_entry_asks_nothing(at: Attempt, rq: Request, slot: int, context: int)
    requires
        rq.entries[slot].signature is Some,
    ensures
        verify_entry(at, rq, slot, context).0.calls == at.calls,
{
}

/// Co-signers of which one was not submitted are never found verified: the
/// answer is `false`, unless an earlier one has failed the attempt.
pub proof fn law_missing_cosigner_refuses(
    at: Attempt,
    rq: Request,
    required: Seq<KeyView>,
    from: int,
    context: int,
    missing: int,
)
    requires
        0 <= from <= missing < required.len(),
        slot_from(rq.entries, required[missing], 0) is None,
    ensures
        cosigners_from(at, rq, required, from, context).1 != Ok::<bool, Error>(true),
        cosigners_from(at, rq, required, from, context).1 is Ok ==> cosigners_from(
            at,
            rq,
            required,
            from,
            context,
        ).1 == Ok::<bool, Error>(false),
    decreases required.len() - from,
{
    if from < missing {
        match slot_from(rq.entries, required[from], 0) {
            None => {},
            Some(slot) => {
                let (next, verified) = verify_entry(at, rq, slot, context);
                if verified is Ok {
                    law_missing_cosigner_refuses(next, rq, required, from + 1, context, missing);
                }
            },
        }
    }
}

/// A scoped signer whose scope requires a co-signer that was not submitted
/// does not authorize the operation.
pub proof fn law_scoped_signer_needs_all(
    at: Attempt,
    rq: Request,
    slot: int,
    context: int,
    missing: int,
)
    requires
        is_scoped(at.store, rq, slot),
        scope_says(at.store, rq, slot, context) matches Some(Some(keys)) && 0 <= missing
            < keys.len() && slot_from(rq.entries, keys[missing], 0) is None,
    ensures
        entry_authorizes(at, rq, slot, context).1 != Ok::<bool, Error>(true),
{
    let (seen, verified) = verify_entry(at, rq, slot, context);
    if verified is Ok {
        let keys = scope_says(at.store, rq, slot, context)->Some_0->Some_0;
        law_missing_cosigner_refuses(seen, rq, keys, 0, context, missing);
    }
}

/// Two entries of which the one in `signer` is scoped, admits the one
/// operation requested and requires the other as its only co-signer; both
/// come from registered signers with proofs that hold.
pub open spec fn cosigned_pair(store: StoreView, rq: Request, signer: int, cosigner: int) -> bool {
    &&& rq.entries.len() == 2
    &&& rq.contexts.len() == 1
    &&& (signer == 0 && cosigner == 1) || (signer == 1 && cosigner == 0)
    &&& rq.entries[0].key@ != rq.entries[1].key@
    &&& valid_entry(store, rq, 0)
    &&& valid_entry(store, rq, 1)
    &&& is_scoped(store, rq, signer)
    &&& scope_says(store, rq, signer, 0) == Some(Some(seq![rq.entries[cosigner].key@]))
    &&& self_call_allowed(rq.contexts[0], rq.wallet, rq.entries[signer].key@)
}

/// Whether the entry in `slot` does not authorize the one operation by
/// itself: its signer has a scope, and the scope has no entry for the
/// operation's target.
pub open spec fn stands_aside(store: StoreView, rq: Request, slot: int) -> bool {
    &&& is_scoped(store, rq, slot)
    &&& scope_says(store, rq, slot, 0) is None
}

/// A scoped signer and the co-signer that its scope requires, submitted
/// together with proofs that hold, authorize the operation: the attempt is
/// granted, both slots are marked, and a delegated policy among the two is
/// asked to approve this operation. This holds where the signer is submitted
/// first, and where the co-signer is submitted first and does not authorize
/// the operation by itself. (A co-signer that is submitted first and does
/// authorize the operation by itself is chosen for it, and the attempt is
/// refused for the signer's unused entry.)
pub proof fn law_cosigned_grant(store: StoreView, rq: Request, signer: int, cosigner: int)
    requires
        store.wf(),
        cosigned_pair(store, rq, signer, cosigner),
        cosigner == 0 ==> stands_aside(store, rq, cosigner),
    ensures
        authorize(store, rq).1 is Ok,
        authorize(store, rq).0.ledger[0],
        authorize(store, rq).0.ledger[1],
        count_marked(authorize(store, rq).0.ledger) == 2,
        asked(authorize(store, rq).0.calls, rq, signer, 0),
        asked(authorize(store, rq).0.calls, rq, cosigner, 0),
{
    let at = start(store);
    let keys = seq![rq.entries[cosigner].key@];
    law_count_unmarked(MAX_SIGNATURES as nat);
    assert(steady(at, rq));
    if signer == 0 {
        // The signer is looked at first, and brings its co-signer in.
        law_verify_entry_steady(at, rq, 0, 0);
        let seen = verify_entry(at, rq, 0, 0).0;
        assert(verify_entry(at, rq, 0, 0).1 is Ok);
        assert(seen.store.get(rq.entries[1].key@) == store.get(rq.entries[1].key@));
        assert(slot_from(rq.entries, keys[0], 1) == Some(1int));
        assert(slot_from(rq.entries, keys[0], 0) == Some(1int));
        law_verify_entry_steady(seen, rq, 1, 0);
        let both = verify_entry(seen, rq, 1, 0).0;
        assert(!seen.ledger[1]);
        assert(verify_entry(seen, rq, 1, 0).1 is Ok);
        assert(cosigners_from(both, rq, keys, 1, 0) == (both, Ok::<bool, Error>(true)));
        assert(cosigners_from(seen, rq, keys, 0, 0) == (both, Ok::<bool, Error>(true)));
        assert(entry_authorizes(at, rq, 0, 0) == (both, Ok::<bool, Error>(true)));
        assert(search_from(at, rq, 0, 0) == (both, Ok::<(), Error>(())));
        assert(contexts_from(both, rq, 1) == (both, Ok::<(), Error>(())));
        assert(contexts_from(at, rq, 0) == (both, Ok::<(), Error>(())));
        law_mark_counts_once(at.ledger, 0);
        law_mark_counts_once(seen.ledger, 1);
        law_asked_stays(seen, both, rq, 0, 0);
    } else {
        // The co-signer is looked at first and stands aside; the signer
        // behind it finds it verified.
        law_verify_entry_steady(at, rq, 0, 0);
        let first = verify_entry(at, rq, 0, 0).0;
        assert(verify_entry(at, rq, 0, 0).1 is Ok);
        assert(entry_authorizes(at, rq, 0, 0) == (first, Ok::<bool, Error>(false)));
        assert(first.store.get(rq.entries[1].key@) == store.get(rq.entries[1].key@));
        assert(first.store.get(rq.entries[0].key@) == store.get(rq.entries[0].key@));
        law_verify_entry_steady(first, rq, 1, 0);
        let seen = verify_entry(first, rq, 1, 0).0;
        assert(!first.ledger[1]);
        assert(verify_entry(first, rq, 1, 0).1 is Ok);
        assert(seen.store.get(rq.entries[0].key@) == store.get(rq.entries[0].key@));
        assert(slot_from(rq.entries, keys[0], 0) == Some(0int));
        law_marked_entry_not_checked_again(
            rq.entries[0],
            store.get(rq.entries[0].key@)->Some_0.0,
            rq.payload,
        );
        law_verify_entry_steady(seen, rq, 0, 0);
        let both = verify_entry(seen, rq, 0, 0).0;
        assert(seen.ledger[0]);
        assert(verify_entry(seen, rq, 0, 0).1 is Ok);
        assert(cosigners_from(both, rq, keys, 1, 0) == (both, Ok::<bool, Error>(true)));
        assert(cosigners_from(seen, rq, keys, 0, 0) == (both, Ok::<bool, Error>(true)));
        assert(entry_authorizes(first, rq, 1, 0) == (both, Ok::<bool, Error>(true)));
        assert(search_from(both, rq, 0, 2).1 == Err::<(), Error>(Error::NotAuthorized));
        assert(search_from(first, rq, 0, 1) == (both, Ok::<(), Error>(())));
        assert(search_from(at, rq, 0, 0) == (both, Ok::<(), Error>(())));
        assert(contexts_from(both, rq, 1) == (both, Ok::<(), Error>(())));
        assert(contexts_from(at, rq, 0) == (both, Ok::<(), Error>(())));
        law_mark_counts_once(at.ledger, 0);
        law_mark_counts_once(first.ledger, 1);
        law_mark_counts_once(seen.ledger, 0);
        assert(both.ledger =~= seen.ledger);
        law_asked_stays(seen, both, rq, 1, 0);
    }
}

} // verus!
