//! A sample policy: a delegated signer that lets small transfers of the
//! native asset pass, as long as a key pair has signed with it.
use crate::types::Address;
use crate::values::bytes_eq;
use vstd::prelude::*;

verus! {

/// Why the policy refuses.
#[derive(Clone, Copy, Debug, PartialEq, Eq, Structural)]
pub enum Error {
    NotAllowed,
}

/// The kind of a proof that was submitted to the wallet.
#[derive(Clone, Copy, Debug, PartialEq, Eq, Structural)]
pub enum SignatureKind {
    Policy,
    Ed25519,
    Secp256r1,
}

/// A call that the wallet is asked to authorize. `amount` is its third
/// argument where that is a 128-bit integer.
#[derive(Clone, Debug, PartialEq, Eq)]
pub struct SubCall {
    pub contract: Address,
    pub fn_name: Vec<u8>,
    pub amount: Option<i128>,
}

/// An operation that the wallet is asked to authorize.
#[derive(Clone, Debug, PartialEq, Eq)]
pub enum SubContext {
    Contract(SubCall),
    CreateContractHostFn,
}

/// A call that the policy is asked to approve. Where the call is the
/// wallet's authorization check, `signatures` is its second argument, if that
/// is a list of proofs, and `contexts` its third, if that is a list of
/// operations.
#[derive(Clone, Debug, PartialEq, Eq)]
pub struct RootCall {
    pub contract: Address,
    pub fn_name: Vec<u8>,
    pub signatures: Option<Vec<SignatureKind>>,
    pub contexts: Option<Vec<SubContext>>,
}

/// An operation that the policy is asked to approve.
#[derive(Clone, Debug, PartialEq, Eq)]
pub enum RootContext {
    Contract(RootCall),
    CreateContractHostFn,
}

/// The native asset's contract in a test environment:
/// `CDLDVFKHEZ2RVB3NG4UQA4VPD3TSHV6XMHXMHP2BSGCJ2IIWVTOHGDSG`.
pub const NATIVE_SAC_TEST: [u8; 56] = [67, 68, 76, 68, 86, 70, 75, 72, 69, 90, 50, 82, 86, 66, 51, 78, 71, 52, 85, 81, 65, 52, 86, 80, 68, 51, 84, 83, 72, 86, 54, 88, 77, 72, 88, 77, 72, 80, 50, 66, 83, 71, 67, 74, 50, 73, 73, 87, 86, 84, 79, 72, 71, 68, 83, 71];

/// The native asset's contract on Futurenet:
/// `CB64D3G7SM2RTH6JSGG34DDTFTQ5CFDKVDZJZSODMCX4NJ2HV2KN7OHT`.
pub const NATIVE_SAC_FUTURENET: [u8; 56] = [67, 66, 54, 52, 68, 51, 71, 55, 83, 77, 50, 82, 84, 72, 54, 74, 83, 71, 71, 51, 52, 68, 68, 84, 70, 84, 81, 53, 67, 70, 68, 75, 86, 68, 90, 74, 90, 83, 79, 68, 77, 67, 88, 52, 78, 74, 50, 72, 86, 50, 75, 78, 55, 79, 72, 84];

/// The native asset's contract on Testnet:
/// `CDLZFC3SYJYDZT7K67VZ75HPJVIEUVNIXF47ZG2FB2RMQQVU2HHGCYSC`.
pub const NATIVE_SAC_TESTNET: [u8; 56] = [67, 68, 76, 90, 70, 67, 51, 83, 89, 74, 89, 68, 90, 84, 55, 75, 54, 55, 86, 90, 55, 53, 72, 80, 74, 86, 73, 69, 85, 86, 78, 73, 88, 70, 52, 55, 90, 71, 50, 70, 66, 50, 82, 77, 81, 81, 86, 85, 50, 72, 72, 71, 67, 89, 83, 67];

/// The native asset's contract on Mainnet:
/// `CAS3J7GYLGXMF6TDJBBYYSE3HQ6BBSMLNUQ34T6TZMYMW2EVH34XOWMA`.
pub const NATIVE_SAC_MAINNET: [u8; 56] = [67, 65, 83, 51, 74, 55, 71, 89, 76, 71, 88, 77, 70, 54, 84, 68, 74, 66, 66, 89, 89, 83, 69, 51, 72, 81, 54, 66, 66, 83, 77, 76, 78, 85, 81, 51, 52, 84, 54, 84, 90, 77, 89, 77, 87, 50, 69, 86, 72, 51, 52, 88, 79, 87, 77, 65];

/// The largest amount that the policy lets pass, in the asset's smallest
/// unit.
pub const MAX_AMOUNT: i128 = 10_000_000;

/// The most operations that the policy looks at in one call.
pub const MAX_CONTEXTS: usize = 20;

/// The name of the wallet's authorization check: `__check_auth`.
pub open spec fn check_auth_name() -> Seq<u8> {
    seq![95u8, 95u8, 99u8, 104u8, 101u8, 99u8, 107u8, 95u8, 97u8, 117u8, 116u8, 104u8]
}

/// The name of the call that moves an asset: `transfer`.
pub open spec fn transfer_name() -> Seq<u8> {
    seq![116u8, 114u8, 97u8, 110u8, 115u8, 102u8, 101u8, 114u8]
}

/// Whether `address` is one of the native asset's contracts.
pub open spec fn is_native_sac(address: Seq<u8>) -> bool {
    ||| address == NATIVE_SAC_TEST@
    ||| address == NATIVE_SAC_FUTURENET@
    ||| address == NATIVE_SAC_TESTNET@
    ||| address == NATIVE_SAC_MAINNET@
}

/// Whether a key pair has signed.
pub open spec fn signed_by_key_pair(signatures: Seq<SignatureKind>) -> bool {
    exists|i: int|
        0 <= i < signatures.len() && (#[trigger] signatures[i] == SignatureKind::Ed25519
            || signatures[i] == SignatureKind::Secp256r1)
}

/// Whether the policy approves of an operation: a transfer of the native
/// asset of no more than the largest amount.
pub open spec fn approves(context: SubContext) -> bool {
    match context {
        SubContext::Contract(call) => {
            &&& call.amount matches Some(amount)
            &&& is_native_sac(call.contract@)
            &&& call.fn_name@ == transfer_name()
            &&& amount <= MAX_AMOUNT
        },
        SubContext::CreateContractHostFn => false,
    }
}

/// Whether an operation may stand among those that the wallet authorizes: it
/// is a call, and not one on the wallet itself.
pub open spec fn admissible(context: SubContext, wallet: Seq<u8>) -> bool {
    match context {
        SubContext::Contract(call) => call.contract@ != wallet,
        SubContext::CreateContractHostFn => false,
    }
}

/// Whether the policy lets the operations of one authorization check pass:
/// there are no more than it looks at, each is admissible, and it approves
/// of one of them at least.
pub open spec fn contexts_allowed(contexts: Seq<SubContext>, wallet: Seq<u8>) -> bool {
    &&& contexts.len() <= MAX_CONTEXTS
    &&& forall|i: int| 0 <= i < contexts.len() ==> admissible(#[trigger] contexts[i], wallet)
    &&& exists|i: int| 0 <= i < contexts.len() && approves(#[trigger] contexts[i])
}

/// Whether the policy lets `root` pass. It judges the wallet's authorization
/// checks only, by the proofs and the operations that they carry.
pub open spec fn allowed(root: RootContext) -> bool {
    match root {
        RootContext::Contract(call) => call.fn_name@ == check_auth_name() ==> {
            &&& call.signatures matches Some(signatures) ==> signed_by_key_pair(signatures@)
            &&& call.contexts matches Some(contexts) ==> contexts_allowed(
                contexts@,
                call.contract@,
            )
        },
        RootContext::CreateContractHostFn => true,
    }
}

/// The policy's verdict on a batch.
pub open spec fn verdict(roots: Seq<RootContext>) -> Result<(), Error> {
    if forall|i: int| 0 <= i < roots.len() ==> allowed(#[trigger] roots[i]) {
        Ok(())
    } else {
        Err(Error::NotAllowed)
    }
}

fn native_sac(address: &Address) -> (native: bool)
    ensures
        native == is_native_sac(address@),
{
    let a = address.bytes.as_slice();
    bytes_eq(a, NATIVE_SAC_TEST.as_slice()) || bytes_eq(a, NATIVE_SAC_FUTURENET.as_slice())
        || bytes_eq(a, NATIVE_SAC_TESTNET.as_slice()) || bytes_eq(a, NATIVE_SAC_MAINNET.as_slice())
}

fn check_signatures(signatures: &Vec<SignatureKind>) -> (signed: bool)
    ensures
        signed == signed_by_key_pair(signatures@),
{
    let n: usize = signatures.len();
    let mut i: usize = 0;
    while i < n
        invariant
            n == signatures@.len(),
            i <= n,
            forall|j: int|
                0 <= j < i ==> !(#[trigger] signatures@[j] == SignatureKind::Ed25519
                    || signatures@[j] == SignatureKind::Secp256r1),
        decreases n - i,
    {
        match signatures[i] {
            SignatureKind::Ed25519 => {
                return true;
            },
            SignatureKind::Secp256r1 => {
                return true;
            },
            SignatureKind::Policy => {},
        }
        i = i + 1;
    }
    false
}

fn check_approval(context: &SubContext) -> (approved: bool)
    ensures
        approved == approves(*context),
{
    match context {
        SubContext::Contract(call) => match call.amount {
            Some(amount) => {
                let transfer: [u8; 8] = [116, 114, 97, 110, 115, 102, 101, 114];
                assert(transfer@ =~= transfer_name());
                native_sac(&call.contract) && bytes_eq(
                    call.fn_name.as_slice(),
                    transfer.as_slice(),
                ) && amount <= MAX_AMOUNT
            },
            None => false,
        },
        SubContext::CreateContractHostFn => false,
    }
}

fn check_contexts(contexts: &Vec<SubContext>, wallet: &Address) -> (passes: bool)
    ensures
        passes == contexts_allowed(contexts@, wallet@),
{
    if contexts.len() > MAX_CONTEXTS {
        return false;
    }
    let n: usize = contexts.len();
    let mut approved: bool = false;
    let mut i: usize = 0;
    while i < n
        invariant
            n == contexts@.len(),
            i <= n,
            forall|j: int| 0 <= j < i ==> admissible(#[trigger] contexts@[j], wallet@),
            approved == exists|j: int| 0 <= j < i && approves(#[trigger] contexts@[j]),
        decreases n - i,
    {
        match &contexts[i] {
            SubContext::Contract(call) => {
                if call.contract.same(wallet) {
                    assert(!admissible(contexts@[i as int], wallet@));
                    return false;
                }
            },
            SubContext::CreateContractHostFn => {
                assert(!admissible(contexts@[i as int], wallet@));
                return false;
            },
        }
        if check_approval(&contexts[i]) {
            approved = true;
        }
        i = i + 1;
    }
    approved
}

fn check_root(root: &RootContext) -> (passes: bool)
    ensures
        passes == allowed(*root),
{
    match root {
        RootContext::Contract(call) => {
            let name: [u8; 12] = [95, 95, 99, 104, 101, 99, 107, 95, 97, 117, 116, 104];
            assert(name@ =~= check_auth_name());
            if !bytes_eq(call.fn_name.as_slice(), name.as_slice()) {
                return true;
            }
            let signed = match &call.signatures {
                Some(signatures) => check_signatures(signatures),
                None => true,
            };
            if !signed {
                return false;
            }
            match &call.contexts {
                Some(contexts) => check_contexts(contexts, &call.contract),
                None => true,
            }
        },
        RootContext::CreateContractHostFn => true,
    }
}

/// The sample policy.
pub struct Contract;

impl Contract {
    /// Decides whether the policy approves of a batch: of each of the
    /// wallet's authorization checks in it, and of anything else.
    #[allow(non_snake_case)]
    pub fn __check_auth(root_auth_contexts: &Vec<RootContext>) -> (r: Result<(), Error>)
        ensures
            r == verdict(root_auth_contexts@),
    {
        let n: usize = root_auth_contexts.len();
        let mut i: usize = 0;
        while i < n
            invariant
                n == root_auth_contexts@.len(),
                i <= n,
                forall|j: int| 0 <= j < i ==> allowed(#[trigger] root_auth_contexts@[j]),
            decreases n - i,
        {
            if !check_root(&root_auth_contexts[i]) {
                return Err(Error::NotAllowed);
            }
            i = i + 1;
        }
        Ok(())
    }
}

} // verus!
