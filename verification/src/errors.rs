//! Error types shared by the Grid services.
use vstd::prelude::*;
use vstd::string::*;
use crate::text::{dec_chars, push_decimal};

verus! {

#[verifier::external_type_specification]
#[verifier::external_body]
pub struct ExIoError(std::io::Error);

/// Errors of the core Grid encoding layer.
#[derive(Debug, Clone, PartialEq, Eq)]
pub enum GridError {
    /// Input bytes or text could not be decoded.
    Decode(String),
}

/// Errors produced by proof verification.
#[derive(Debug, Clone, PartialEq, Eq)]
pub enum ProofError {
    /// No verifier is registered for the named proof system.
    VerifierNotFound { proof_system: String },
    /// The proof did not verify.
    VerificationFailed { reason: String },
    /// The proof bytes are malformed.
    InvalidProofFormat { reason: String },
}

/// Errors of the Grid sector cryptography.
#[derive(Debug, Clone, PartialEq, Eq)]
pub enum CryptoError {
    /// Sealed ciphertext is too short to contain nonce + tag.
    CiphertextTooShort { len: usize, min: usize },
    /// AEAD encryption failed.
    EncryptionFailed,
    /// AEAD decryption failed (wrong key, corrupted data, or AAD mismatch).
    DecryptionFailed,
    /// HKDF expand failed during key derivation.
    HkdfExpandFailed,
    /// Padding or unpadding failed.
    PaddingError(String),
}

/// The message of a cryptography error.
pub open spec fn crypto_error_text(e: CryptoError) -> Seq<char> {
    match e {
        CryptoError::CiphertextTooShort { len, min } => "ciphertext too short: "@ + dec_chars(len as nat)
            + " bytes, minimum "@ + dec_chars(min as nat),
        CryptoError::EncryptionFailed => "AEAD encryption failed"@,
        CryptoError::DecryptionFailed => "AEAD decryption failed"@,
        CryptoError::HkdfExpandFailed => "HKDF expand failed"@,
        CryptoError::PaddingError(m) => "padding error: "@ + m@,
    }
}

impl CryptoError {
    /// The human-readable message of the error.
    pub fn to_string(&self) -> (r: String)
        ensures
            r@ == crypto_error_text(*self),
    {
        match self {
            CryptoError::CiphertextTooShort { len, min } => {
                let mut s = String::from_str("ciphertext too short: ");
                push_decimal(&mut s, *len as u64);
                s.append(" bytes, minimum ");
                push_decimal(&mut s, *min as u64);
                s
            },
            CryptoError::EncryptionFailed => String::from_str("AEAD encryption failed"),
            CryptoError::DecryptionFailed => String::from_str("AEAD decryption failed"),
            CryptoError::HkdfExpandFailed => String::from_str("HKDF expand failed"),
            CryptoError::PaddingError(m) => {
                let mut s = String::from_str("padding error: ");
                s.append(m.as_str());
                s
            },
        }
    }
}

/// Errors from the RPC server.
#[derive(Debug)]
pub enum RpcError {
    /// Failed to bind the TCP listener.
    Bind(std::io::Error),
}

/// Errors of the service layer.
#[derive(Debug, Clone, PartialEq, Eq)]
pub enum ServiceError {
    NotFound(String),
    AlreadyRegistered(String),
    MissingProgram(String),
    Descriptor(String),
    Storage(String),
    EphemeralToken(String),
    Startup(String),
    Shutdown(String),
    Grid(GridError),
    Other(String),
}

impl From<GridError> for ServiceError {
    fn from(e: GridError) -> (r: Self) {
        ServiceError::Grid(e)
    }
}

impl vstd::std_specs::convert::FromSpecImpl<GridError> for ServiceError {
    open spec fn obeys_from_spec() -> bool {
        true
    }

    open spec fn from_spec(e: GridError) -> Self {
        ServiceError::Grid(e)
    }
}

/// Errors of the storage-program layer.
#[derive(Debug, Clone, PartialEq, Eq)]
pub enum ZfsError {
    /// A payload violates a limit or a format rule.
    InvalidPayload(String),
    /// Canonical bytes could not be decoded.
    Decode(String),
}

} // verus!
