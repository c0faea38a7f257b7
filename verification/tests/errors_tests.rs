use zephyr_grid::errors::CryptoError;

#[test]
fn crypto_error_messages() {
    assert_eq!(
        CryptoError::CiphertextTooShort { len: 12, min: 28 }.to_string(),
        "ciphertext too short: 12 bytes, minimum 28"
    );
    assert_eq!(CryptoError::EncryptionFailed.to_string(), "AEAD encryption failed");
    assert_eq!(CryptoError::DecryptionFailed.to_string(), "AEAD decryption failed");
    assert_eq!(CryptoError::HkdfExpandFailed.to_string(), "HKDF expand failed");
    assert_eq!(CryptoError::PaddingError("bad".to_string()).to_string(), "padding error: bad");
}
