//! Ed25519 signature checks for votes and certificates.
use vstd::prelude::*;
use crate::identity::NodeIdentity;

verus! {

/// Whether `sig` is a valid strict Ed25519 signature of `msg` under the
/// public key `pk`, as decided by `ed25519-dalek`.
pub uninterp spec fn ed25519_valid(pk: Seq<u8>, msg: Seq<u8>, sig: Seq<u8>) -> bool;

/// Calls `ed25519_dalek::VerifyingKey::from_bytes` and then
/// `VerifyingKey::verify_strict`. A public key that does not decode is
/// refused; otherwise the answer is left to the name `ed25519_valid`.
#[verifier::external_body]
fn ed25519_verify_strict(pubkey: &[u8; 32], message: &[u8], signature: &[u8; 64]) -> (r: bool)
    ensures
        r == ed25519_valid(pubkey@, message@, signature@),
{
    match ed25519_dalek::VerifyingKey::from_bytes(pubkey) {
        Ok(vk) => vk.verify_strict(message, &ed25519_dalek::Signature::from_bytes(signature)).is_ok(),
        Err(_) => false,
    }
}

/// Verify an Ed25519 signature against a 32-byte public key. A signature
/// that is not exactly 64 bytes long is refused.
pub fn verify_ed25519(pubkey: &[u8; 32], message: &[u8], signature: &[u8]) -> (r: bool)
    ensures
        r == (signature@.len() == 64 && ed25519_valid(pubkey@, message@, signature@)),
{
    if signature.len() != 64 {
        return false;
    }
    let mut sig = [0u8; 64];
    let mut i: usize = 0;
    while i < 64
        invariant
            signature@.len() == 64,
            i <= 64,
            forall|j: int| 0 <= j < i ==> sig@[j] == signature@[j],
        decreases 64 - i,
    {
        sig[i] = signature[i];
        i += 1;
    }
    assert(sig@ =~= signature@);
    ed25519_verify_strict(pubkey, message, &sig)
}

/// Sign data using the node's Ed25519 identity key.
pub fn sign_ed25519<F: Fn(&[u8]) -> Vec<u8>>(identity: &NodeIdentity<F>, data: &[u8]) -> (r: Vec<u8>)
    requires
        identity.spec_signing_fn().requires((data,)),
    ensures
        identity.spec_signing_fn().ensures((data,), r),
{
    identity.sign(data)
}

} // verus!
