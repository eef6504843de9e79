//! Comparing and copying the wallet's data by value.
use crate::types::{keys_view, Address, Limit, SignerKey, SignerLimits, SignerVal};
use vstd::prelude::*;

verus! {

/// Whether two byte strings hold the same bytes.
pub fn bytes_eq(a: &[u8], b: &[u8]) -> (same: bool)
    ensures
        same == (a@ == b@),
{
    if a.len() != b.len() {
        return false;
    }
    let n: usize = a.len();
    let mut i: usize = 0;
    while i < n
        invariant
            n == a@.len(),
            n == b@.len(),
            i <= n,
            forall|j: int| 0 <= j < i ==> a@[j] == b@[j],
        decreases n - i,
    {
        if a[i] != b[i] {
            return false;
        }
        i = i + 1;
    }
    assert(a@ =~= b@);
    true
}

/// A copy of a byte string.
pub fn bytes_copy(a: &Vec<u8>) -> (copy: Vec<u8>)
    ensures
        copy@ == a@,
{
    let mut out: Vec<u8> = Vec::new();
    let n: usize = a.len();
    let mut i: usize = 0;
    while i < n
        invariant
            n == a@.len(),
            i <= n,
            out@ == a@.subrange(0, i as int),
        decreases n - i,
    {
        out.push(a[i]);
        i = i + 1;
        assert(out@ =~= a@.subrange(0, i as int));
    }
    assert(a@.subrange(0, n as int) =~= a@);
    out
}

impl Address {
    pub fn same(&self, other: &Address) -> (same: bool)
        ensures
            same == (self@ == other@),
    {
        bytes_eq(self.bytes.as_slice(), other.bytes.as_slice())
    }

    pub fn copy(&self) -> (copy: Address)
        ensures
            copy@ == self@,
    {
        Address { bytes: bytes_copy(&self.bytes) }
    }
}

impl SignerKey {
    /// Whether both keys identify the same signer.
    pub fn same(&self, other: &SignerKey) -> (same: bool)
        ensures
            same == (self@ == other@),
    {
        match (self, other) {
            (SignerKey::Policy(a), SignerKey::Policy(b)) => a.same(b),
            (SignerKey::Ed25519(a), SignerKey::Ed25519(b)) => bytes_eq(a.as_slice(), b.as_slice()),
            (SignerKey::Secp256r1(a), SignerKey::Secp256r1(b)) => bytes_eq(
                a.as_slice(),
                b.as_slice(),
            ),
            _ => false,
        }
    }

    pub fn copy(&self) -> (copy: SignerKey)
        ensures
            copy@ == self@,
    {
        match self {
            SignerKey::Policy(a) => SignerKey::Policy(a.copy()),
            SignerKey::Ed25519(k) => SignerKey::Ed25519(*k),
            SignerKey::Secp256r1(id) => SignerKey::Secp256r1(bytes_copy(id)),
        }
    }
}

/// A copy of a list of keys.
pub fn keys_copy(keys: &Vec<SignerKey>) -> (copy: Vec<SignerKey>)
    ensures
        keys_view(copy@) == keys_view(keys@),
{
    let mut out: Vec<SignerKey> = Vec::new();
    let n: usize = keys.len();
    let mut i: usize = 0;
    while i < n
        invariant
            n == keys@.len(),
            i <= n,
            out@.len() == i,
            forall|j: int| 0 <= j < i ==> out@[j]@ == keys@[j]@,
        decreases n - i,
    {
        out.push(keys[i].copy());
        i = i + 1;
    }
    assert(keys_view(out@) =~= keys_view(keys@));
    out
}

impl Limit {
    pub fn copy(&self) -> (copy: Limit)
        ensures
            copy@ == self@,
    {
        let required = match &self.required {
            Some(keys) => Some(keys_copy(keys)),
            None => None,
        };
        Limit { target: self.target.copy(), required }
    }
}

impl SignerLimits {
    pub fn copy(&self) -> (copy: SignerLimits)
        ensures
            copy@ == self@,
    {
        let mut out: Vec<Limit> = Vec::new();
        let n: usize = self.entries.len();
        let mut i: usize = 0;
        while i < n
            invariant
                n == self.entries@.len(),
                i <= n,
                out@.len() == i,
                forall|j: int| 0 <= j < i ==> out@[j]@ == self.entries@[j]@,
            decreases n - i,
        {
            out.push(self.entries[i].copy());
            i = i + 1;
        }
        let copy = SignerLimits { entries: out };
        assert(copy@ =~= self@);
        copy
    }
}

impl SignerVal {
    pub fn copy(&self) -> (copy: SignerVal)
        ensures
            copy@ == self@,
    {
        match self {
            SignerVal::Policy(l) => SignerVal::Policy(l.copy()),
            SignerVal::Ed25519(l) => SignerVal::Ed25519(l.copy()),
            SignerVal::Secp256r1(pk, l) => SignerVal::Secp256r1(*pk, l.copy()),
        }
    }

    /// The scope stored with the signer.
    pub fn limits(&self) -> (limits: &SignerLimits)
        ensures
            limits@ == self@.limits(),
    {
        match self {
            SignerVal::Policy(l) => l,
            SignerVal::Ed25519(l) => l,
            SignerVal::Secp256r1(_, l) => l,
        }
    }
}

} // verus!
