//! Checking one submitted proof against a payload hash and a public key.
use crate::base64_url::{encode, encoded};
use crate::host::{
    ed25519_accepts, host_sha256, host_verify_ed25519, host_verify_secp256r1, secp256r1_accepts,
    sha256_digest,
};
use crate::types::{Error, Secp256r1Signature};
use crate::values::bytes_eq;
use vstd::prelude::*;

verus! {

/// The verdict on an Ed25519 signature of the payload hash.
pub open spec fn plain_outcome(payload_hash: Seq<u8>, public_key: Seq<u8>, signature: Seq<u8>) -> Result<
    (),
    Error,
> {
    if ed25519_accepts(public_key, payload_hash, signature) {
        Ok(())
    } else {
        Err(Error::InvalidSignature)
    }
}

/// Checks an Ed25519 signature of the payload hash.
pub fn verify_plain(payload_hash: &[u8; 32], public_key: &[u8; 32], signature: &[u8; 64]) -> (r:
    Result<(), Error>)
    ensures
        r == plain_outcome(payload_hash@, public_key@, signature@),
{
    match host_verify_ed25519(public_key, payload_hash, signature) {
        Ok(()) => Ok(()),
        Err(_) => Err(Error::InvalidSignature),
    }
}

/// The verdict on the challenge that the client data carried: it has to be
/// there, and to be the encoding of the payload hash, byte for byte.
pub open spec fn challenge_outcome(challenge: Option<Vec<u8>>, payload_hash: Seq<u8>) -> Result<
    (),
    Error,
> {
    match challenge {
        None => Err(Error::MalformedClientData),
        Some(c) => if c@ == encoded(payload_hash) {
            Ok(())
        } else {
            Err(Error::ChallengeMismatch)
        },
    }
}

/// Holds the challenge decoded from the client data against the payload hash.
pub fn check_challenge(challenge: &Option<Vec<u8>>, payload_hash: &[u8; 32]) -> (r: Result<
    (),
    Error,
>)
    ensures
        r == challenge_outcome(*challenge, payload_hash@),
{
    match challenge {
        None => Err(Error::MalformedClientData),
        Some(c) => {
            let mut expected: [u8; 43] = [0u8; 43];
            encode(&mut expected, payload_hash);
            if bytes_eq(c.as_slice(), expected.as_slice()) {
                Ok(())
            } else {
                Err(Error::ChallengeMismatch)
            }
        },
    }
}

/// The digest that a WebAuthn signature is made over: that of the
/// authenticator data followed by the digest of the client data. `None` where
/// the host refuses to hash one of the two.
pub open spec fn signed_digest(authenticator_data: Seq<u8>, client_data_json: Seq<u8>) -> Option<
    Seq<u8>,
> {
    match sha256_digest(client_data_json) {
        None => None,
        Some(h) => sha256_digest(authenticator_data + h),
    }
}

/// The verdict on a WebAuthn assertion: first the signature, then the
/// challenge.
pub open spec fn secp256r1_outcome(
    public_key: Seq<u8>,
    proof: Secp256r1Signature,
    payload_hash: Seq<u8>,
) -> Result<(), Error> {
    match signed_digest(proof.authenticator_data@, proof.client_data_json@) {
        None => Err(Error::InvalidSignature),
        Some(d) => if secp256r1_accepts(public_key, d, proof.signature@) {
            challenge_outcome(proof.challenge, payload_hash)
        } else {
            Err(Error::InvalidSignature)
        },
    }
}

/// Computes the digest that a WebAuthn signature is made over.
pub fn compute_signed_digest(authenticator_data: &Vec<u8>, client_data_json: &Vec<u8>) -> (r:
    Option<[u8; 32]>)
    ensures
        match r {
            Some(d) => signed_digest(authenticator_data@, client_data_json@) == Some(d@),
            None => signed_digest(authenticator_data@, client_data_json@) is None,
        },
{
    let h = match host_sha256(client_data_json) {
        Ok(h) => h,
        Err(_) => {
            return None;
        },
    };
    let mut message: Vec<u8> = Vec::new();
    let n: usize = authenticator_data.len();
    let mut i: usize = 0;
    while i < n
        invariant
            n == authenticator_data@.len(),
            i <= n,
            message@ == authenticator_data@.subrange(0, i as int),
        decreases n - i,
    {
        message.push(authenticator_data[i]);
        i = i + 1;
        assert(message@ =~= authenticator_data@.subrange(0, i as int));
    }
    assert(authenticator_data@.subrange(0, n as int) =~= authenticator_data@);
    let mut j: usize = 0;
    while j < 32
        invariant
            j <= 32,
            message@ == authenticator_data@ + h@.subrange(0, j as int),
        decreases 32 - j,
    {
        message.push(h[j]);
        j = j + 1;
        assert(message@ =~= authenticator_data@ + h@.subrange(0, j as int));
    }
    assert(h@.subrange(0, 32) =~= h@);
    match host_sha256(&message) {
        Ok(d) => Some(d),
        Err(_) => None,
    }
}

/// Checks a WebAuthn assertion over the payload hash.
pub fn verify_secp256r1_signature(
    public_key: &[u8; 65],
    proof: &Secp256r1Signature,
    payload_hash: &[u8; 32],
) -> (r: Result<(), Error>)
    ensures
        r == secp256r1_outcome(public_key@, *proof, payload_hash@),
{
    let digest = match compute_signed_digest(&proof.authenticator_data, &proof.client_data_json) {
        Some(d) => d,
        None => {
            return Err(Error::InvalidSignature);
        },
    };
    match host_verify_secp256r1(public_key, &digest, &proof.signature) {
        Ok(()) => check_challenge(&proof.challenge, payload_hash),
        Err(_) => Err(Error::InvalidSignature),
    }
}

/// An assertion is accepted only for the bytes that were signed: the host
/// accepts the signature over the digest of this authenticator data and this
/// client data, and the challenge is the encoding of this payload hash.
pub proof fn law_assertion_binds(
    public_key: Seq<u8>,
    proof: Secp256r1Signature,
    payload_hash: Seq<u8>,
)
    requires
        secp256r1_outcome(public_key, proof, payload_hash) is Ok,
    ensures
        signed_digest(proof.authenticator_data@, proof.client_data_json@) matches Some(digest)
            && secp256r1_accepts(public_key, digest, proof.signature@),
        proof.challenge matches Some(challenge) && challenge@ == encoded(payload_hash),
{
}

/// An assertion whose client data was changed after signing fails wherever
/// the change shows in the signed digest: if the host does not accept the
/// signature over the digest of the changed bytes, or cannot digest them, the
/// signature is invalid, whatever the challenge says.
pub proof fn law_changed_client_data_fails(
    public_key: Seq<u8>,
    signed: Secp256r1Signature,
    changed: Secp256r1Signature,
    payload_hash: Seq<u8>,
)
    requires
        changed.authenticator_data@ == signed.authenticator_data@,
        changed.signature@ == signed.signature@,
        match signed_digest(changed.authenticator_data@, changed.client_data_json@) {
            Some(digest) => !secp256r1_accepts(public_key, digest, signed.signature@),
            None => true,
        },
    ensures
        secp256r1_outcome(public_key, changed, payload_hash) == Err::<(), Error>(
            Error::InvalidSignature,
        ),
{
}

} // verus!
