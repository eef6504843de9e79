//! The wallet: the signer store behind its administrative calls, and the
//! authorization entry point.
use crate::auth::{authorize, PolicyCall, Request};
use crate::engine::Engine;
use crate::store::{SignerStore, StoreView, Stored, WEEK_OF_LEDGERS};
use crate::types::{
    Address, Context, Error, KeyView, SignatureEntry, Signer, SignerKey, SignerStorage, SignerVal,
};
use vstd::prelude::*;

verus! {

/// The wallet as a value.
pub struct WalletView {
    pub address: Seq<u8>,
    pub store: StoreView,
    /// The window for which the wallet's own entry was last renewed.
    pub instance_window: u32,
    /// The hash of the code that the wallet was last told to run, if it was
    /// told.
    pub wasm_hash: Option<Seq<u8>>,
}

impl WalletView {
    /// The wallet with its own window renewed: extended to what a renewal
    /// reaches for, and left where it is longer.
    pub open spec fn renewed(self) -> WalletView {
        WalletView { instance_window: self.store.renewed(self.instance_window), ..self }
    }

    /// Whether a call of `add` counts a signer in: it is let through, and no
    /// tier holds the signer's key yet.
    pub open spec fn add_counts(self, signer: Signer, authorized: bool) -> bool {
        &&& !(self.add_needs_auth() && !authorized)
        &&& self.store.tier_of(signer.key()) is None
    }

    /// Whether a call of `remove` counts a signer out: it is let through, and
    /// a tier holds the key.
    pub open spec fn remove_counts(self, key: KeyView, authorized: bool) -> bool {
        &&& authorized
        &&& self.store.tier_of(key) is Some
    }

    /// Whether registering a signer needs the wallet's own authorization: it
    /// does while the wallet counts one signer at least.
    pub open spec fn add_needs_auth(self) -> bool {
        match self.store.count {
            Some(c) => c >= 1,
            None => false,
        }
    }

    /// The wallet after a call of `add`, and what the call answers.
    pub open spec fn add(self, signer: Signer, authorized: bool) -> (WalletView, Result<(), Error>) {
        if self.add_needs_auth() && !authorized {
            (self, Err(Error::NotAuthorized))
        } else {
            (
                WalletView {
                    store: self.store.put(signer.key(), signer.val(), signer.storage()),
                    ..self
                }.renewed(),
                Ok(()),
            )
        }
    }

    /// The wallet after a call of `remove`, and what the call answers.
    pub open spec fn remove(self, key: KeyView, authorized: bool) -> (
        WalletView,
        Result<(), Error>,
    ) {
        if !authorized {
            (self, Err(Error::NotAuthorized))
        } else {
            (WalletView { store: self.store.delete(key), ..self }.renewed(), Ok(()))
        }
    }

    /// The wallet after a call of `update`, and what the call answers.
    pub open spec fn update(self, hash: Seq<u8>, authorized: bool) -> (
        WalletView,
        Result<(), Error>,
    ) {
        if !authorized {
            (self, Err(Error::NotAuthorized))
        } else {
            (WalletView { wasm_hash: Some(hash), ..self }.renewed(), Ok(()))
        }
    }

    /// The request that an attempt on this wallet goes by.
    pub open spec fn request(
        self,
        payload: Seq<u8>,
        entries: Seq<SignatureEntry>,
        contexts: Seq<Context>,
    ) -> Request {
        Request { wallet: self.address, payload, entries, contexts }
    }

    /// The wallet after an authorization attempt. The reads of the attempt
    /// have renewed the windows of the signers it looked at; a granted
    /// attempt renews the wallet's own window too.
    pub open spec fn check_auth(self, rq: Request) -> WalletView {
        let (end, verdict) = authorize(self.store, rq);
        let read = WalletView { store: end.store, ..self };
        if verdict is Ok {
            read.renewed()
        } else {
            read
        }
    }
}

/// A signer that was added is read back as it was added, in the tier it
/// asked for; and one that was removed is read back as absent.
pub proof fn law_add_then_read(wallet: WalletView, signer: Signer, key: KeyView)
    requires
        wallet.store.wf(),
    ensures
        wallet.add(signer, true).1 is Ok,
        wallet.add(signer, true).0.store.wf(),
        wallet.add(signer, true).0.store.get(signer.key()) == Some(
            (signer.val(), signer.storage()),
        ),
        wallet.remove(key, true).1 is Ok,
        wallet.remove(key, true).0.store.wf(),
        wallet.remove(key, true).0.store.get(key) is None,
        wallet.add(signer, true).0.remove(signer.key(), true).0.store.get(signer.key()) is None,
{
}

/// Adding a signer again under another tier moves it: the tier it was in
/// holds it no longer, and the count is as it was.
pub proof fn law_add_again_moves(wallet: WalletView, signer: Signer)
    requires
        wallet.store.wf(),
        wallet.store.get(signer.key()) is Some,
    ensures
        signer.storage() == SignerStorage::Persistent ==> !wallet.add(
            signer,
            true,
        ).0.store.temporary.contains_key(signer.key()),
        signer.storage() == SignerStorage::Temporary ==> !wallet.add(
            signer,
            true,
        ).0.store.persistent.contains_key(signer.key()),
        wallet.add(signer, true).0.store.count == wallet.store.count,
{
}

/// The wallet's own window is never shortened: a renewal leaves it at what a
/// renewal reaches for at least, and at what it was at least.
pub proof fn law_own_window_never_shortens(wallet: WalletView)
    ensures
        wallet.renewed().instance_window >= wallet.instance_window,
        wallet.renewed().instance_window >= wallet.store.renewal(),
        wallet.renewed().instance_window == wallet.instance_window
            || wallet.renewed().instance_window == wallet.store.renewal(),
        wallet.renewed().store == wallet.store,
{
}

/// The first signer is added without authorization; while the wallet counts
/// a signer, none is added without.
pub proof fn law_add_is_guarded(wallet: WalletView, signer: Signer)
    ensures
        wallet.store.count is None ==> wallet.add(signer, false).1 is Ok,
        wallet.add_needs_auth() ==> wallet.add(signer, false) == (
            wallet,
            Err::<(), Error>(Error::NotAuthorized),
        ),
{
}

/// The wallet.
pub struct Contract {
    address: Address,
    store: SignerStore,
    instance_window: u32,
    wasm_hash: Option<[u8; 32]>,
}

impl View for Contract {
    type V = WalletView;

    closed spec fn view(&self) -> WalletView {
        WalletView {
            address: self.address@,
            store: self.store@,
            instance_window: self.instance_window,
            wasm_hash: match self.wasm_hash {
                Some(h) => Some(h@),
                None => None,
            },
        }
    }
}

impl Contract {
    /// The wallet's store is well-formed.
    pub closed spec fn wf(&self) -> bool {
        self.store.wf()
    }

    /// In a well-formed wallet no signer key stands in both tiers.
    pub proof fn wf_as_value(&self)
        requires
            self.wf(),
        ensures
            self@.store.wf(),
    {
        self.store.wf_as_value();
    }

    /// A wallet at `address` with no signer yet, under a host whose entries
    /// live `max_ttl` ledgers at most.
    pub fn new(address: Address, max_ttl: u32) -> (wallet: Contract)
        requires
            max_ttl >= WEEK_OF_LEDGERS,
        ensures
            wallet.wf(),
            wallet@.address == address@,
            wallet@.wasm_hash is None,
            wallet@.instance_window == 0,
            wallet@.store.persistent == Map::<KeyView, Stored>::empty(),
            wallet@.store.temporary == Map::<KeyView, Stored>::empty(),
            wallet@.store.count is None,
            wallet@.store.max_ttl == max_ttl,
    {
        Contract { address, store: SignerStore::new(max_ttl), instance_window: 0, wasm_hash: None }
    }

    /// Whether `add` needs the wallet's own authorization.
    pub fn add_needs_auth(&self) -> (needed: bool)
        ensures
            needed == self@.add_needs_auth(),
    {
        match self.store.signer_count() {
            Some(c) => c >= 1,
            None => false,
        }
    }

    /// The signer count, `None` until the first signer is registered.
    pub fn signer_count(&self) -> (count: Option<i32>)
        ensures
            match count {
                Some(c) => self@.store.count == Some(c as int),
                None => self@.store.count is None,
            },
    {
        self.store.signer_count()
    }

    /// The window for which the wallet's own entry was last renewed.
    pub fn instance_window(&self) -> (window: u32)
        ensures
            window == self@.instance_window,
    {
        self.instance_window
    }

    /// The hash of the code that the wallet was last told to run, if it was
    /// told.
    pub fn wasm_hash(&self) -> (hash: Option<[u8; 32]>)
        ensures
            match hash {
                Some(h) => self@.wasm_hash == Some(h@),
                None => self@.wasm_hash is None,
            },
    {
        self.wasm_hash
    }

    /// The wallet's own address.
    pub fn address(&self) -> (address: &Address)
        ensures
            address@ == self@.address,
    {
        &self.address
    }

    /// The window that a renewal reaches for.
    pub fn renewal_window(&self) -> (window: u32)
        requires
            self.wf(),
        ensures
            window == self@.store.renewal(),
    {
        self.store.renewal_window()
    }

    /// Takes over a signer record as the host holds it, with the window for
    /// which the host is known to keep it. The count is left as it is.
    pub fn load_signer(
        &mut self,
        signer_key: &SignerKey,
        signer_val: &SignerVal,
        signer_storage: &SignerStorage,
        window: u32,
    )
        requires
            old(self).wf(),
        ensures
            final(self).wf(),
            final(self)@ == (WalletView {
                store: old(self)@.store.load(signer_key@, signer_val@, *signer_storage, window),
                ..old(self)@
            }),
    {
        self.store.load_signer(signer_key, signer_val, signer_storage, window);
    }

    /// Takes over the signer count as the host holds it.
    pub fn load_signer_count(&mut self, count: Option<i32>)
        requires
            old(self).wf(),
        ensures
            final(self).wf(),
            final(self)@ == (WalletView {
                store: StoreView {
                    count: match count {
                        Some(c) => Some(c as int),
                        None => None,
                    },
                    ..old(self)@.store
                },
                ..old(self)@
            }),
    {
        self.store.load_signer_count(count);
    }

    /// Reads the record under `signer_key` and its tier, without renewing its
    /// window.
    pub fn signer(&mut self, signer_key: &SignerKey) -> (found: Option<(SignerVal, SignerStorage)>)
        requires
            old(self).wf(),
        ensures
            final(self).wf(),
            final(self)@ == old(self)@,
            match found {
                Some((val, tier)) => old(self)@.store.get(signer_key@) == Some((val@, tier)),
                None => old(self)@.store.get(signer_key@) is None,
            },
    {
        self.store.get_signer_val_storage(signer_key, false)
    }

    /// The window for which the record under `signer_key` was last renewed.
    pub fn signer_window(&self, signer_key: &SignerKey) -> (window: Option<u32>)
        requires
            self.wf(),
        ensures
            window == match self@.store.tier_of(signer_key@) {
                Some(SignerStorage::Temporary) => Some(
                    self@.store.temporary[signer_key@].window,
                ),
                Some(SignerStorage::Persistent) => Some(
                    self@.store.persistent[signer_key@].window,
                ),
                None => None,
            },
    {
        self.store.window(signer_key)
    }

    /// Registers `signer`, or replaces the signer under its key. While the
    /// wallet has a signer, the call has to be `authorized` by the wallet
    /// itself. The count needs room for a step up only where the call counts
    /// a signer in.
    pub fn add(&mut self, signer: Signer, authorized: bool) -> (r: Result<(), Error>)
        requires
            old(self).wf(),
            old(self)@.add_counts(signer, authorized) ==> old(self)@.store.can_step(true),
        ensures
            final(self).wf(),
            (final(self)@, r) == old(self)@.add(signer, authorized),
    {
        if self.add_needs_auth() && !authorized {
            return Err(Error::NotAuthorized);
        }
        let (signer_key, signer_val, signer_storage) = match signer {
            Signer::Policy(policy, signer_limits, signer_storage) => (
                SignerKey::Policy(policy),
                SignerVal::Policy(signer_limits),
                signer_storage,
            ),
            Signer::Ed25519(public_key, signer_limits, signer_storage) => (
                SignerKey::Ed25519(public_key),
                SignerVal::Ed25519(signer_limits),
                signer_storage,
            ),
            Signer::Secp256r1(id, public_key, signer_limits, signer_storage) => (
                SignerKey::Secp256r1(id),
                SignerVal::Secp256r1(public_key, signer_limits),
                signer_storage,
            ),
        };
        self.store.store_signer(&signer_key, &signer_val, &signer_storage);
        self.instance_window = self.store.renew(self.instance_window);
        Ok(())
    }

    /// Removes the signer under `signer_key`, if there is one. The call has to
    /// be `authorized` by the wallet itself. The count needs room for a step
    /// down only where the call counts a signer out.
    pub fn remove(&mut self, signer_key: SignerKey, authorized: bool) -> (r: Result<(), Error>)
        requires
            old(self).wf(),
            old(self)@.remove_counts(signer_key@, authorized) ==> old(self)@.store.can_step(false),
        ensures
            final(self).wf(),
            (final(self)@, r) == old(self)@.remove(signer_key@, authorized),
    {
        if !authorized {
            return Err(Error::NotAuthorized);
        }
        self.store.remove_signer(&signer_key);
        self.instance_window = self.store.renew(self.instance_window);
        Ok(())
    }

    /// Has the wallet run the code `hash` from now on. The call has to be
    /// `authorized` by the wallet itself.
    pub fn update(&mut self, hash: [u8; 32], authorized: bool) -> (r: Result<(), Error>)
        requires
            old(self).wf(),
        ensures
            final(self).wf(),
            (final(self)@, r) == old(self)@.update(hash@, authorized),
    {
        if !authorized {
            return Err(Error::NotAuthorized);
        }
        self.wasm_hash = Some(hash);
        self.instance_window = self.store.renew(self.instance_window);
        Ok(())
    }

    /// Decides whether the submitted entries authorize the requested
    /// operations over the payload hash. A grant names the approvals that it
    /// depends on: each delegated policy among them has to approve the
    /// operation named with it, or the attempt is refused after all. The
    /// answers settle it: see `settle`. The entries are taken in the order
    /// given; that no key occurs twice among them is not asked (see
    /// `distinct_keys` for what holds where one does).
    #[allow(non_snake_case)]
    pub fn __check_auth(
        &mut self,
        signature_payload: &[u8; 32],
        signatures: &Vec<SignatureEntry>,
        auth_contexts: &Vec<Context>,
    ) -> (r: Result<Vec<PolicyCall>, Error>)
        requires
            old(self).wf(),
        ensures
            final(self).wf(),
            final(self)@ == old(self)@.check_auth(
                old(self)@.request(signature_payload@, signatures@, auth_contexts@),
            ),
            match r {
                Ok(calls) => {
                    &&& authorize(
                        old(self)@.store,
                        old(self)@.request(signature_payload@, signatures@, auth_contexts@),
                    ).1 is Ok
                    &&& calls@ == authorize(
                        old(self)@.store,
                        old(self)@.request(signature_payload@, signatures@, auth_contexts@),
                    ).0.calls
                },
                Err(e) => authorize(
                    old(self)@.store,
                    old(self)@.request(signature_payload@, signatures@, auth_contexts@),
                ).1 == Err::<(), Error>(e),
            },
    {
        let engine = Engine {
            wallet: &self.address,
            payload: signature_payload,
            entries: signatures,
            contexts: auth_contexts,
        };
        let r = engine.run(&mut self.store);
        if r.is_ok() {
            self.instance_window = self.store.renew(self.instance_window);
        }
        r
    }
}

} // verus!
