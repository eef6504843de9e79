//! The authorization engine: one attempt, carried out step by step.
use crate::auth::{
    authorize, contexts_from, cosigners_from, count_marked, distinct_keys, distinct_targets,
    entry_authorizes, limit_from,
    proof_outcome, remove_name, search_from, self_call_allowed, settled, slot_from, start,
    verify_entry, verify_key, Attempt, PolicyCall, Request, MAX_SIGNATURES,
};
use crate::store::SignerStore;
use crate::types::{
    keys_view, Address, Arg, Context, Error, Signature, SignatureEntry, SignerKey, SignerLimits,
    SignerVal, ValView,
};
use crate::values::bytes_eq;
use crate::verify::{verify_plain, verify_secp256r1_signature};
use vstd::prelude::*;

verus! {

/// The verification ledger of one attempt, and the approvals it has asked of
/// delegated policies.
pub struct Progress {
    pub ledger: [bool; 20],
    pub calls: Vec<PolicyCall>,
}

/// What one attempt has to go by.
pub struct Engine<'a> {
    pub wallet: &'a Address,
    pub payload: &'a [u8; 32],
    pub entries: &'a Vec<SignatureEntry>,
    pub contexts: &'a Vec<Context>,
}

impl<'a> View for Engine<'a> {
    type V = Request;

    open spec fn view(&self) -> Request {
        Request {
            wallet: self.wallet@,
            payload: self.payload@,
            entries: self.entries@,
            contexts: self.contexts@,
        }
    }
}

/// Where the attempt stands, given the store and the progress made.
pub open spec fn reached(store: &SignerStore, progress: &Progress) -> Attempt {
    Attempt { store: store@, ledger: progress.ledger@, calls: progress.calls@ }
}

/// Counts the marked slots of the ledger.
pub fn count_verified(ledger: &[bool; 20]) -> (n: usize)
    ensures
        n == count_marked(ledger@),
        n <= 20,
{
    let mut n: usize = 0;
    let mut i: usize = 0;
    assert(ledger@.subrange(0, 0) =~= Seq::<bool>::empty());
    while i < 20
        invariant
            i <= 20,
            n <= i,
            n == count_marked(ledger@.subrange(0, i as int)),
        decreases 20 - i,
    {
        assert(ledger@.subrange(0, i + 1).drop_last() =~= ledger@.subrange(0, i as int));
        if ledger[i] {
            n = n + 1;
        }
        i = i + 1;
    }
    assert(ledger@.subrange(0, 20) =~= ledger@);
    n
}

/// The first entry of a scope for `target`.
fn find_limit(limits: &SignerLimits, target: &Address) -> (at: Option<usize>)
    ensures
        match at {
            Some(i) => i < limits.entries@.len() && limit_from(limits@, target@, 0) == Some(
                limits@[i as int].required,
            ),
            None => limit_from(limits@, target@, 0) is None,
        },
{
    let n: usize = limits.entries.len();
    let mut i: usize = 0;
    while i < n
        invariant
            n == limits.entries@.len(),
            n == limits@.len(),
            i <= n,
            limit_from(limits@, target@, i as int) == limit_from(limits@, target@, 0),
        decreases n - i,
    {
        assert(limits@[i as int] == limits.entries@[i as int]@);
        if limits.entries[i].target.same(target) {
            return Some(i);
        }
        i = i + 1;
    }
    None
}

/// The first slot that was submitted under `key`.
fn find_slot(entries: &Vec<SignatureEntry>, key: &SignerKey) -> (at: Option<usize>)
    ensures
        match at {
            Some(i) => i < entries@.len() && slot_from(entries@, key@, 0) == Some(i as int),
            None => slot_from(entries@, key@, 0) is None,
        },
{
    let n: usize = entries.len();
    let mut i: usize = 0;
    while i < n
        invariant
            n == entries@.len(),
            i <= n,
            slot_from(entries@, key@, i as int) == slot_from(entries@, key@, 0),
        decreases n - i,
    {
        if entries[i].key.same(key) {
            return Some(i);
        }
        i = i + 1;
    }
    None
}

/// Whether no key is submitted twice.
pub fn has_distinct_keys(entries: &Vec<SignatureEntry>) -> (distinct: bool)
    ensures
        distinct == distinct_keys(entries@),
{
    let n: usize = entries.len();
    let mut j: usize = 0;
    while j < n
        invariant
            n == entries@.len(),
            j <= n,
            forall|a: int, b: int|
                0 <= a < b < j ==> (#[trigger] entries@[a]).key@ != (#[trigger] entries@[b]).key@,
        decreases n - j,
    {
        let mut i: usize = 0;
        while i < j
            invariant
                n == entries@.len(),
                i <= j < n,
                forall|a: int|
                    0 <= a < i ==> (#[trigger] entries@[a]).key@ != entries@[j as int].key@,
            decreases j - i,
        {
            if entries[i].key.same(&entries[j].key) {
                assert(!distinct_keys(entries@)) by {
                    assert(entries@[i as int].key@ == entries@[j as int].key@);
                }
                return false;
            }
            i = i + 1;
        }
        j = j + 1;
    }
    true
}

/// Whether no target has two entries in the scope.
pub fn has_distinct_targets(limits: &SignerLimits) -> (distinct: bool)
    ensures
        distinct == distinct_targets(limits@),
{
    let n: usize = limits.entries.len();
    let mut j: usize = 0;
    while j < n
        invariant
            n == limits.entries@.len(),
            n == limits@.len(),
            j <= n,
            forall|a: int, b: int|
                0 <= a < b < j ==> (#[trigger] limits@[a]).target != (
                #[trigger] limits@[b]).target,
        decreases n - j,
    {
        let mut i: usize = 0;
        assert(limits@[j as int] == limits.entries@[j as int]@);
        while i < j
            invariant
                n == limits.entries@.len(),
                n == limits@.len(),
                i <= j < n,
                limits@[j as int] == limits.entries@[j as int]@,
                forall|a: int|
                    0 <= a < i ==> (#[trigger] limits@[a]).target != limits@[j as int].target,
            decreases j - i,
        {
            assert(limits@[i as int] == limits.entries@[i as int]@);
            if limits.entries[i].target.same(&limits.entries[j].target) {
                assert(!distinct_targets(limits@)) by {
                    assert(limits@[i as int].target == limits@[j as int].target);
                }
                return false;
            }
            i = i + 1;
        }
        j = j + 1;
    }
    true
}

/// Whether a scoped signer may authorize `context` as far as calls on the
/// wallet itself go.
pub fn check_self_call(context: &Context, wallet: &Address, key: &SignerKey) -> (allowed: bool)
    ensures
        allowed == self_call_allowed(*context, wallet@, key@),
{
    match context {
        Context::Contract(call) => {
            if !call.contract.same(wallet) {
                return true;
            }
            let remove: [u8; 6] = [114, 101, 109, 111, 118, 101];
            assert(remove@ =~= remove_name());
            if !bytes_eq(call.fn_name.as_slice(), remove.as_slice()) {
                return false;
            }
            if call.args.len() == 0 {
                return false;
            }
            match &call.args[0] {
                Arg::Key(k) => k.same(key),
                Arg::Other(_) => false,
            }
        },
        Context::CreateContractHostFn => true,
    }
}

/// Checks the proof of one entry against the record stored under its key,
/// unless its slot is marked already.
pub fn check_proof(entry: &SignatureEntry, val: &SignerVal, payload: &[u8; 32], marked: bool) -> (r:
    Result<(), Error>)
    ensures
        r == proof_outcome(*entry, val@, payload@, marked),
{
    match &entry.signature {
        None => match &entry.key {
            SignerKey::Policy(_) => Ok(()),
            _ => Err(Error::InvalidSignatureForSignerKey),
        },
        Some(Signature::Ed25519(signature)) => match &entry.key {
            SignerKey::Ed25519(public_key) => if marked {
                Ok(())
            } else {
                verify_plain(payload, public_key, signature)
            },
            _ => Err(Error::SignatureKeyValueMismatch),
        },
        Some(Signature::Secp256r1(proof)) => match &entry.key {
            SignerKey::Policy(_) => Err(Error::InvalidSignatureForSignerKey),
            SignerKey::Ed25519(_) => Err(Error::SignatureKeyValueMismatch),
            SignerKey::Secp256r1(_) => match val {
                SignerVal::Secp256r1(public_key, _) => if marked {
                    Ok(())
                } else {
                    verify_secp256r1_signature(public_key, proof, payload)
                },
                _ => Err(Error::SignatureKeyValueMismatch),
            },
        },
    }
}

/// Settles a grant by the answers of the delegated policies, `approvals[i]`
/// being the answer to `calls[i]`.
pub fn settle(calls: &Vec<PolicyCall>, approvals: &Vec<bool>) -> (r: Result<(), Error>)
    ensures
        r == settled(calls@, approvals@),
{
    if approvals.len() != calls.len() {
        return Err(Error::NotAuthorized);
    }
    let n: usize = approvals.len();
    let mut i: usize = 0;
    while i < n
        invariant
            n == approvals@.len(),
            n == calls@.len(),
            i <= n,
            forall|j: int| 0 <= j < i ==> #[trigger] approvals@[j],
        decreases n - i,
    {
        if !approvals[i] {
            return Err(Error::NotAuthorized);
        }
        i = i + 1;
    }
    Ok(())
}

/// Whether `r` is the executable form of the verdict `out`.
pub open spec fn gives(r: Result<SignerVal, Error>, out: Result<ValView, Error>) -> bool {
    match r {
        Ok(v) => out == Ok::<ValView, Error>(v@),
        Err(e) => out == Err::<ValView, Error>(e),
    }
}

impl<'a> Engine<'a> {
    /// There is a ledger slot for every entry.
    pub open spec fn fits(&self) -> bool {
        self.entries@.len() <= MAX_SIGNATURES
    }

    /// Verifies the entry in `slot` for the operation number `context`: reads
    /// the signer, which renews its window, checks its proof unless the slot
    /// is marked, and marks the slot. A delegated policy is asked to approve
    /// the operation, marked or not.
    pub fn verify(
        &self,
        store: &mut SignerStore,
        progress: &mut Progress,
        slot: usize,
        context: usize,
    ) -> (r: Result<SignerVal, Error>)
        requires
            old(store).wf(),
            self.fits(),
            slot < self.entries@.len(),
        ensures
            final(store).wf(),
            reached(final(store), final(progress)) == verify_entry(
                reached(old(store), old(progress)),
                self@,
                slot as int,
                context as int,
            ).0,
            gives(
                r,
                verify_entry(
                    reached(old(store), old(progress)),
                    self@,
                    slot as int,
                    context as int,
                ).1,
            ),
    {
        let entry = &self.entries[slot];
        let val = match store.get_signer_val_storage(&entry.key, true) {
            None => {
                return Err(Error::SignerNotFound);
            },
            Some((val, _)) => val,
        };
        match check_proof(entry, &val, self.payload, progress.ledger[slot]) {
            Err(e) => Err(e),
            Ok(()) => {
                progress.ledger[slot] = true;
                if entry.signature.is_none() {
                    progress.calls.push(PolicyCall { slot, context });
                }
                Ok(val)
            },
        }
    }

    /// Verifies the entry that was submitted under `signer_key` for the
    /// operation number `context`. A key that was not submitted is not found.
    pub fn verify_key(
        &self,
        store: &mut SignerStore,
        progress: &mut Progress,
        signer_key: &SignerKey,
        context: usize,
    ) -> (r: Result<SignerVal, Error>)
        requires
            old(store).wf(),
            self.fits(),
        ensures
            final(store).wf(),
            reached(final(store), final(progress)) == verify_key(
                reached(old(store), old(progress)),
                self@,
                signer_key@,
                context as int,
            ).0,
            gives(
                r,
                verify_key(
                    reached(old(store), old(progress)),
                    self@,
                    signer_key@,
                    context as int,
                ).1,
            ),
    {
        match find_slot(self.entries, signer_key) {
            None => Err(Error::SignerNotFound),
            Some(slot) => self.verify(store, progress, slot, context),
        }
    }

    /// Verifies the required co-signers, in order. One that was not submitted
    /// ends it with `false`; one that does not verify ends the attempt.
    pub fn verify_signer_limit_keys(
        &self,
        store: &mut SignerStore,
        progress: &mut Progress,
        signer_limits_keys: &Vec<SignerKey>,
        context: usize,
    ) -> (r: Result<bool, Error>)
        requires
            old(store).wf(),
            self.fits(),
        ensures
            final(store).wf(),
            (reached(final(store), final(progress)), r) == cosigners_from(
                reached(old(store), old(progress)),
                self@,
                keys_view(signer_limits_keys@),
                0,
                context as int,
            ),
    {
        let ghost required = keys_view(signer_limits_keys@);
        let ghost goal = cosigners_from(
            reached(store, progress),
            self@,
            required,
            0,
            context as int,
        );
        let n: usize = signer_limits_keys.len();
        let mut k: usize = 0;
        while k < n
            invariant
                store.wf(),
                self.fits(),
                n == signer_limits_keys@.len(),
                required == keys_view(signer_limits_keys@),
                k <= n,
                cosigners_from(reached(store, progress), self@, required, k as int, context as int)
                    == goal,
                goal == cosigners_from(
                    reached(old(store), old(progress)),
                    self@,
                    required,
                    0,
                    context as int,
                ),
            decreases n - k,
        {
            assert(required[k as int] == signer_limits_keys@[k as int]@);
            if find_slot(self.entries, &signer_limits_keys[k]).is_none() {
                return Ok(false);
            }
            match self.verify_key(store, progress, &signer_limits_keys[k], context) {
                Err(e) => {
                    return Err(e);
                },
                Ok(_) => {},
            }
            k = k + 1;
        }
        Ok(true)
    }

    /// Whether the signer in `slot` authorizes the operation number
    /// `context`.
    fn authorizes(
        &self,
        store: &mut SignerStore,
        progress: &mut Progress,
        slot: usize,
        context: usize,
    ) -> (r: Result<bool, Error>)
        requires
            old(store).wf(),
            self.fits(),
            slot < self.entries@.len(),
            context < self.contexts@.len(),
        ensures
            final(store).wf(),
            (reached(final(store), final(progress)), r) == entry_authorizes(
                reached(old(store), old(progress)),
                self@,
                slot as int,
                context as int,
            ),
    {
        let val = match self.verify(store, progress, slot, context) {
            Err(e) => {
                return Err(e);
            },
            Ok(val) => val,
        };
        let limits = val.limits();
        if limits.entries.len() == 0 {
            return Ok(true);
        }
        let requested = &self.contexts[context];
        let found = match requested {
            Context::Contract(call) => find_limit(limits, &call.contract),
            Context::CreateContractHostFn => find_limit(limits, self.wallet),
        };
        match found {
            None => Ok(false),
            Some(i) => {
                assert(limits@[i as int] == limits.entries@[i as int]@);
                if !check_self_call(requested, self.wallet, &self.entries[slot].key) {
                    return Ok(false);
                }
                match &limits.entries[i].required {
                    None => Ok(true),
                    Some(keys) => self.verify_signer_limit_keys(store, progress, keys, context),
                }
            },
        }
    }

    /// Looks for the first entry whose signer authorizes the operation number
    /// `context`.
    fn search(&self, store: &mut SignerStore, progress: &mut Progress, context: usize) -> (r:
        Result<(), Error>)
        requires
            old(store).wf(),
            self.fits(),
            context < self.contexts@.len(),
        ensures
            final(store).wf(),
            (reached(final(store), final(progress)), r) == search_from(
                reached(old(store), old(progress)),
                self@,
                context as int,
                0,
            ),
    {
        let ghost goal = search_from(reached(store, progress), self@, context as int, 0);
        let n: usize = self.entries.len();
        let mut i: usize = 0;
        while i < n
            invariant
                store.wf(),
                self.fits(),
                context < self.contexts@.len(),
                n == self.entries@.len(),
                i <= n,
                search_from(reached(store, progress), self@, context as int, i as int) == goal,
                goal == search_from(reached(old(store), old(progress)), self@, context as int, 0),
            decreases n - i,
        {
            match self.authorizes(store, progress, i, context) {
                Err(e) => {
                    return Err(e);
                },
                Ok(true) => {
                    return Ok(());
                },
                Ok(false) => {},
            }
            i = i + 1;
        }
        Err(Error::NotAuthorized)
    }

    /// Carries out the attempt on `store`. On success, hands back the
    /// approvals that it depends on.
    pub fn run(&self, store: &mut SignerStore) -> (r: Result<Vec<PolicyCall>, Error>)
        requires
            old(store).wf(),
        ensures
            final(store).wf(),
            match r {
                Ok(calls) => authorize(old(store)@, self@).1 is Ok && calls@ == authorize(
                    old(store)@,
                    self@,
                ).0.calls,
                Err(e) => authorize(old(store)@, self@).1 == Err::<(), Error>(e),
            },
            final(store)@ == authorize(old(store)@, self@).0.store,
    {
        if self.entries.len() > MAX_SIGNATURES {
            return Err(Error::TooManySignatures);
        }
        let mut progress = Progress { ledger: [false;20], calls: Vec::new() };
        assert(reached(store, &progress) =~= start(store@));
        let ghost goal = contexts_from(start(store@), self@, 0);
        let n: usize = self.contexts.len();
        let mut c: usize = 0;
        while c < n
            invariant
                store.wf(),
                self.fits(),
                n == self.contexts@.len(),
                c <= n,
                contexts_from(reached(store, &progress), self@, c as int) == goal,
                goal == contexts_from(start(old(store)@), self@, 0),
            decreases n - c,
        {
            match self.search(store, &mut progress, c) {
                Err(e) => {
                    return Err(e);
                },
                Ok(()) => {},
            }
            c = c + 1;
        }
        if count_verified(&progress.ledger) != self.entries.len() {
            return Err(Error::ExtraSigners);
        }
        Ok(progress.calls)
    }
}

} // verus!
