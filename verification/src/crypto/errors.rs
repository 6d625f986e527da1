//! The errors of the crypto layer.
use vstd::prelude::*;

use crate::text::push_str;

verus! {

#[derive(Debug, Clone, PartialEq, Eq)]
pub enum CryptoError {
    KeyGeneration(String),
    KeyDerivation(String),
    Encryption(String),
    Decryption,
    InvalidEnvelope(String),
    ReplayDetected(String),
    SenderRoleMismatch { expected: String, got: String },
    UnsupportedVersion(String),
    Serialization(String),
    Keychain(String),
}

/// The message an error is shown with.
pub open spec fn error_text(e: CryptoError) -> Seq<char> {
    match e {
        CryptoError::KeyGeneration(d) => "key generation failed: "@ + d@,
        CryptoError::KeyDerivation(d) => "key derivation failed: "@ + d@,
        CryptoError::Encryption(d) => "encryption failed: "@ + d@,
        CryptoError::Decryption => "decryption failed: authenticated decryption rejected"@,
        CryptoError::InvalidEnvelope(d) => "invalid envelope: "@ + d@,
        CryptoError::ReplayDetected(id) => "replay detected: message_id "@ + id@
            + " already seen"@,
        CryptoError::SenderRoleMismatch { expected, got } => "sender role mismatch: expected "@
            + expected@ + ", got "@ + got@,
        CryptoError::UnsupportedVersion(v) => "unsupported envelope version: "@ + v@,
        CryptoError::Serialization(d) => "serialization error: "@ + d@,
        CryptoError::Keychain(d) => "keychain error: "@ + d@,
    }
}

pub open spec fn is_replay_of(e: CryptoError, id: Seq<char>) -> bool {
    e matches CryptoError::ReplayDetected(x) && x@ == id
}

pub open spec fn is_unsupported_version(e: CryptoError, v: Seq<char>) -> bool {
    e matches CryptoError::UnsupportedVersion(x) && x@ == v
}

pub open spec fn is_invalid_envelope(e: CryptoError, m: Seq<char>) -> bool {
    e matches CryptoError::InvalidEnvelope(x) && x@ == m
}

pub open spec fn is_encryption_error(e: CryptoError, m: Seq<char>) -> bool {
    e matches CryptoError::Encryption(x) && x@ == m
}

impl CryptoError {
    /// The message the error is shown with.
    pub fn message(&self) -> (m: String)
        ensures
            m@ == error_text(*self),
    {
        let mut m = String::new();
        match self {
            CryptoError::KeyGeneration(d) => {
                push_str(&mut m, "key generation failed: ");
                push_str(&mut m, d.as_str());
            },
            CryptoError::KeyDerivation(d) => {
                push_str(&mut m, "key derivation failed: ");
                push_str(&mut m, d.as_str());
            },
            CryptoError::Encryption(d) => {
                push_str(&mut m, "encryption failed: ");
                push_str(&mut m, d.as_str());
            },
            CryptoError::Decryption => {
                push_str(&mut m, "decryption failed: authenticated decryption rejected");
            },
            CryptoError::InvalidEnvelope(d) => {
                push_str(&mut m, "invalid envelope: ");
                push_str(&mut m, d.as_str());
            },
            CryptoError::ReplayDetected(id) => {
                push_str(&mut m, "replay detected: message_id ");
                push_str(&mut m, id.as_str());
                push_str(&mut m, " already seen");
            },
            CryptoError::SenderRoleMismatch { expected, got } => {
                push_str(&mut m, "sender role mismatch: expected ");
                push_str(&mut m, expected.as_str());
                push_str(&mut m, ", got ");
                push_str(&mut m, got.as_str());
            },
            CryptoError::UnsupportedVersion(v) => {
                push_str(&mut m, "unsupported envelope version: ");
                push_str(&mut m, v.as_str());
            },
            CryptoError::Serialization(d) => {
                push_str(&mut m, "serialization error: ");
                push_str(&mut m, d.as_str());
            },
            CryptoError::Keychain(d) => {
                push_str(&mut m, "keychain error: ");
                push_str(&mut m, d.as_str());
            },
        }
        m
    }
}

} // verus!
