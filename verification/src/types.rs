//! The wallet's data: signer identities, signer records and their scopes,
//! submitted proofs, requested operations and the reasons for refusal.
use vstd::prelude::*;

verus! {

/// Why an authorization attempt, or a signature check, is refused.
#[derive(Clone, Copy, Debug, PartialEq, Eq, Structural)]
pub enum Error {
    TooManySignatures,
    SignerNotFound,
    InvalidSignatureForSignerKey,
    SignatureKeyValueMismatch,
    NotAuthorized,
    ExtraSigners,
    MalformedClientData,
    ChallengeMismatch,
    InvalidSignature,
}

/// The storage tier that holds a signer record.
#[derive(Clone, Copy, Debug, PartialEq, Eq, Structural)]
pub enum SignerStorage {
    /// Lives until it is removed.
    Persistent,
    /// Lives only as long as its window is renewed.
    Temporary,
}

/// The address of a contract or of an account: the characters of its strkey.
#[derive(Clone, Debug, PartialEq, Eq)]
pub struct Address {
    pub bytes: Vec<u8>,
}

impl View for Address {
    type V = Seq<u8>;

    open spec fn view(&self) -> Seq<u8> {
        self.bytes@
    }
}

/// What identifies a signer.
#[derive(Clone, Debug, PartialEq, Eq)]
pub enum SignerKey {
    /// A delegated policy, by the address of its contract.
    Policy(Address),
    /// An Ed25519 key pair, by its public key.
    Ed25519([u8; 32]),
    /// A WebAuthn credential, by its credential id.
    Secp256r1(Vec<u8>),
}

/// A signer's identity as a value: the variant and the bytes under it.
pub enum KeyView {
    Policy(Seq<u8>),
    Ed25519(Seq<u8>),
    Secp256r1(Seq<u8>),
}

impl View for SignerKey {
    type V = KeyView;

    open spec fn view(&self) -> KeyView {
        match *self {
            SignerKey::Policy(a) => KeyView::Policy(a@),
            SignerKey::Ed25519(k) => KeyView::Ed25519(k@),
            SignerKey::Secp256r1(id) => KeyView::Secp256r1(id@),
        }
    }
}

/// The identities in `keys`, in order.
pub open spec fn keys_view(keys: Seq<SignerKey>) -> Seq<KeyView> {
    keys.map_values(|k: SignerKey| k@)
}

/// One entry of a signer's scope: a target, and the co-signers that an
/// operation on that target needs beside the signer itself.
#[derive(Clone, Debug, PartialEq, Eq)]
pub struct Limit {
    pub target: Address,
    pub required: Option<Vec<SignerKey>>,
}

/// One entry of a scope as a value.
pub struct LimitView {
    pub target: Seq<u8>,
    pub required: Option<Seq<KeyView>>,
}

impl View for Limit {
    type V = LimitView;

    open spec fn view(&self) -> LimitView {
        LimitView {
            target: self.target@,
            required: match self.required {
                Some(keys) => Some(keys_view(keys@)),
                None => None,
            },
        }
    }
}

/// A signer's scope. With no entry the signer is unrestricted; otherwise the
/// first entry for a target decides what an operation on that target needs.
#[derive(Clone, Debug, PartialEq, Eq)]
pub struct SignerLimits {
    pub entries: Vec<Limit>,
}

impl View for SignerLimits {
    type V = Seq<LimitView>;

    open spec fn view(&self) -> Seq<LimitView> {
        self.entries@.map_values(|l: Limit| l@)
    }
}

/// What is stored under a signer's key.
#[derive(Clone, Debug, PartialEq, Eq)]
pub enum SignerVal {
    Policy(SignerLimits),
    Ed25519(SignerLimits),
    /// The credential's public key, SEC-1 encoded and uncompressed.
    Secp256r1([u8; 65], SignerLimits),
}

/// A signer's record as a value.
pub enum ValView {
    Policy(Seq<LimitView>),
    Ed25519(Seq<LimitView>),
    Secp256r1(Seq<u8>, Seq<LimitView>),
}

impl View for SignerVal {
    type V = ValView;

    open spec fn view(&self) -> ValView {
        match *self {
            SignerVal::Policy(l) => ValView::Policy(l@),
            SignerVal::Ed25519(l) => ValView::Ed25519(l@),
            SignerVal::Secp256r1(pk, l) => ValView::Secp256r1(pk@, l@),
        }
    }
}

impl ValView {
    /// The scope stored with the signer.
    pub open spec fn limits(self) -> Seq<LimitView> {
        match self {
            ValView::Policy(l) => l,
            ValView::Ed25519(l) => l,
            ValView::Secp256r1(_, l) => l,
        }
    }
}

/// A signer as it is registered: identity, record and tier in one value.
#[derive(Clone, Debug, PartialEq, Eq)]
pub enum Signer {
    Policy(Address, SignerLimits, SignerStorage),
    Ed25519([u8; 32], SignerLimits, SignerStorage),
    Secp256r1(Vec<u8>, [u8; 65], SignerLimits, SignerStorage),
}

impl Signer {
    /// The key that the signer is stored under.
    pub open spec fn key(self) -> KeyView {
        match self {
            Signer::Policy(a, _, _) => KeyView::Policy(a@),
            Signer::Ed25519(k, _, _) => KeyView::Ed25519(k@),
            Signer::Secp256r1(id, _, _, _) => KeyView::Secp256r1(id@),
        }
    }

    /// The record that is stored for the signer.
    pub open spec fn val(self) -> ValView {
        match self {
            Signer::Policy(_, l, _) => ValView::Policy(l@),
            Signer::Ed25519(_, l, _) => ValView::Ed25519(l@),
            Signer::Secp256r1(_, pk, l, _) => ValView::Secp256r1(pk@, l@),
        }
    }

    /// The tier that the signer asks for.
    pub open spec fn storage(self) -> SignerStorage {
        match self {
            Signer::Policy(_, _, s) => s,
            Signer::Ed25519(_, _, s) => s,
            Signer::Secp256r1(_, _, _, s) => s,
        }
    }
}

/// A WebAuthn assertion. `challenge` is the `challenge` member decoded from
/// `client_data_json`, and `None` where that blob does not decode.
#[derive(Clone, Debug, PartialEq, Eq)]
pub struct Secp256r1Signature {
    pub authenticator_data: Vec<u8>,
    pub client_data_json: Vec<u8>,
    pub challenge: Option<Vec<u8>>,
    pub signature: [u8; 64],
}

/// A submitted proof.
#[derive(Clone, Debug, PartialEq, Eq)]
pub enum Signature {
    Ed25519([u8; 64]),
    Secp256r1(Secp256r1Signature),
}

/// One submitted entry: a signer, and its proof where it has one. A delegated
/// policy submits none.
#[derive(Clone, Debug, PartialEq, Eq)]
pub struct SignatureEntry {
    pub key: SignerKey,
    pub signature: Option<Signature>,
}

/// An argument of a requested call: a signer key where it is one, else its
/// encoding.
#[derive(Clone, Debug, PartialEq, Eq)]
pub enum Arg {
    Key(SignerKey),
    Other(Vec<u8>),
}

/// A requested call of `fn_name` on `contract`.
#[derive(Clone, Debug, PartialEq, Eq)]
pub struct ContractContext {
    pub contract: Address,
    pub fn_name: Vec<u8>,
    pub args: Vec<Arg>,
}

/// One requested operation.
#[derive(Clone, Debug, PartialEq, Eq)]
pub enum Context {
    Contract(ContractContext),
    CreateContractHostFn,
}

} // verus!
