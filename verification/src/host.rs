//! The host's cryptographic primitives.
//!
//! Each primitive is computed by a fresh `soroban_env_host::Host`, so that its
//! outcome is a function of the bytes handed to it and of nothing else.
use soroban_env_host::{Env, EnvBase, Host, HostError, LedgerInfo, U32Val};
use vstd::prelude::*;

verus! {

/// The error of a host call, `soroban_env_host::HostError`. Nothing is read
/// from it: a call either succeeds or does not.
#[verifier::external_type_specification]
#[verifier::external_body]
pub struct ExHostError(HostError);

/// What the host's SHA-256 function hands back for `data`: the 32-byte digest,
/// or `None` where the host refuses the input.
pub uninterp spec fn sha256_digest(data: Seq<u8>) -> Option<Seq<u8>>;

/// Whether the host accepts `signature` as an Ed25519 signature of `message`
/// under `public_key`.
pub uninterp spec fn ed25519_accepts(
    public_key: Seq<u8>,
    message: Seq<u8>,
    signature: Seq<u8>,
) -> bool;

/// Whether the host accepts `signature` as an ECDSA signature over the
/// secp256r1 curve of the digest `digest` under the SEC-1 encoded `public_key`.
pub uninterp spec fn secp256r1_accepts(
    public_key: Seq<u8>,
    digest: Seq<u8>,
    signature: Seq<u8>,
) -> bool;

/// Calls `Host::compute_hash_sha256` on a byte object holding `data` and copies
/// the digest out. The result is the named outcome of that call.
#[verifier::external_body]
pub(crate) fn host_sha256(data: &Vec<u8>) -> (r: Result<[u8; 32], HostError>)
    ensures
        match r {
            Ok(d) => sha256_digest(data@) == Some(d@),
            Err(_) => sha256_digest(data@) is None,
        },
{
    let host = Host::default();
    let mut out = [0u8; 32];
    let digest = host.compute_hash_sha256(host.bytes_new_from_slice(data)?)?;
    host.bytes_copy_to_slice(digest, U32Val::from(0), &mut out)?;
    Ok(out)
}

/// Calls `Host::verify_sig_ed25519`. The call succeeds exactly where the host
/// accepts the signature.
#[verifier::external_body]
pub(crate) fn host_verify_ed25519(
    public_key: &[u8; 32],
    message: &[u8; 32],
    signature: &[u8; 64],
) -> (r: Result<(), HostError>)
    ensures
        r is Ok == ed25519_accepts(public_key@, message@, signature@),
{
    let host = Host::default();
    let key = host.bytes_new_from_slice(public_key)?;
    let msg = host.bytes_new_from_slice(message)?;
    let sig = host.bytes_new_from_slice(signature)?;
    host.verify_sig_ed25519(key, msg, sig)?;
    Ok(())
}

/// Calls `Host::verify_sig_ecdsa_secp256r1`, on a host whose ledger runs the
/// first protocol that offers it. The call succeeds exactly where the host
/// accepts the signature.
#[verifier::external_body]
pub(crate) fn host_verify_secp256r1(
    public_key: &[u8; 65],
    digest: &[u8; 32],
    signature: &[u8; 64],
) -> (r: Result<(), HostError>)
    ensures
        r is Ok == secp256r1_accepts(public_key@, digest@, signature@),
{
    let host = Host::default();
    host.set_ledger_info(LedgerInfo { protocol_version: 21, ..Default::default() })?;
    let key = host.bytes_new_from_slice(public_key)?;
    let msg = host.bytes_new_from_slice(digest)?;
    let sig = host.bytes_new_from_slice(signature)?;
    host.verify_sig_ecdsa_secp256r1(key, msg, sig)?;
    Ok(())
}

} // verus!
