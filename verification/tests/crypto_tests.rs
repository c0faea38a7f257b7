use ed25519_dalek::{Signer, SigningKey};
use zephyr_grid::crypto::verify_ed25519;

#[test]
fn verify_rejects_wrong_signature() {
    let pubkey = [0u8; 32];
    let message = b"hello";
    let bad_sig = [0u8; 64];
    assert!(!verify_ed25519(&pubkey, message, &bad_sig));
}

#[test]
fn verify_rejects_truncated_signature() {
    let pubkey = [1u8; 32];
    assert!(!verify_ed25519(&pubkey, b"msg", &[0u8; 32]));
}

#[test]
fn verify_accepts_valid_signature() {
    let sk = SigningKey::from_bytes(&[7u8; 32]);
    let pk = sk.verifying_key().to_bytes();
    let sig = sk.sign(b"zephyr").to_bytes();
    assert!(verify_ed25519(&pk, b"zephyr", &sig));
    assert!(!verify_ed25519(&pk, b"zephyr!", &sig));
}
