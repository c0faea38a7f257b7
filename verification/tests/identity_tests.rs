use std::sync::Arc;
use zephyr_grid::crypto::sign_ed25519;
use zephyr_grid::identity::NodeIdentity;

#[test]
fn identity_exposes_zode_id_and_public_key() {
    let identity = NodeIdentity::new(
        "ZxTestPeer".into(),
        vec![1, 2, 3],
        Arc::new(|data: &[u8]| data.to_vec()),
    );

    assert_eq!(identity.zode_id(), "ZxTestPeer");
    assert_eq!(identity.public_key(), &[1, 2, 3]);
}

#[test]
fn sign_delegates_to_signing_fn() {
    let identity = NodeIdentity::new(
        "ZxTestPeer".into(),
        vec![],
        Arc::new(|data: &[u8]| {
            let mut sig = data.to_vec();
            sig.push(0xFF);
            sig
        }),
    );

    let sig = identity.sign(b"hello");
    assert_eq!(sig, b"hello\xFF");
}

#[test]
fn sign_ed25519_uses_identity_key() {
    let identity = NodeIdentity::new(
        "ZxSigner".into(),
        vec![9; 32],
        Arc::new(|data: &[u8]| {
            let mut sig = vec![0xEE];
            sig.extend_from_slice(data);
            sig
        }),
    );
    assert_eq!(sign_ed25519(&identity, b"ab"), vec![0xEE, b'a', b'b']);
}
