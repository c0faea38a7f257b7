//! The node's identity as seen by services.
use std::sync::Arc;
use vstd::prelude::*;

verus! {

/// Read-only view of the node identity.
///
/// Provides the node's peer id and Ed25519 signing capability so that
/// services can identify themselves and sign data without managing their
/// own key material. `F` is the signing capability, shared behind an
/// `Arc`.
pub struct NodeIdentity<F: Fn(&[u8]) -> Vec<u8>> {
    zode_id: String,
    public_key: Vec<u8>,
    signing_fn: Arc<F>,
}

impl<F: Fn(&[u8]) -> Vec<u8>> NodeIdentity<F> {
    /// The zode id of this identity.
    pub closed spec fn spec_zode_id(&self) -> Seq<char> {
        self.zode_id@
    }

    /// The public key bytes of this identity.
    pub closed spec fn spec_public_key(&self) -> Seq<u8> {
        self.public_key@
    }

    /// The signing capability of this identity.
    pub closed spec fn spec_signing_fn(&self) -> F {
        *self.signing_fn
    }

    pub fn new(zode_id: String, public_key: Vec<u8>, signing_fn: Arc<F>) -> (r: Self)
        ensures
            r.spec_zode_id() == zode_id@,
            r.spec_public_key() == public_key@,
            r.spec_signing_fn() == *signing_fn,
    {
        NodeIdentity { zode_id, public_key, signing_fn }
    }

    /// The node's formatted zode id (e.g. `Zx12D3KooW...`).
    pub fn zode_id(&self) -> (r: &str)
        ensures
            r@ == self.spec_zode_id(),
    {
        self.zode_id.as_str()
    }

    /// The raw Ed25519 public key bytes.
    pub fn public_key(&self) -> (r: &[u8])
        ensures
            r@ == self.spec_public_key(),
    {
        self.public_key.as_slice()
    }

    /// Sign arbitrary data with the node's Ed25519 private key: the result
    /// is what the signing capability returns for `data`.
    pub fn sign(&self, data: &[u8]) -> (r: Vec<u8>)
        requires
            self.spec_signing_fn().requires((data,)),
        ensures
            self.spec_signing_fn().ensures((data,), r),
    {
        let f: &F = &*self.signing_fn;
        f(data)
    }
}

} // verus!
