use rand::RngCore;
use stagewhisper::crypto::amk::{self_unwrap_amk, self_wrap_amk, AccountMasterKey, DeviceIdentity};
use stagewhisper::crypto::envelope::{
    open, open_checked, seal, BYOEnvelope, ContentType, ReplayGuard, SenderRole, ENVELOPE_VERSION,
    REPLAY_GUARD_MAX_IDS,
};
use stagewhisper::crypto::errors::CryptoError;
use stagewhisper::crypto::kdf::derive_envelope_key;

fn test_key() -> [u8; 32] {
    let mut shared = [0u8; 32];
    rand::rngs::OsRng.fill_bytes(&mut shared);
    derive_envelope_key(&shared).unwrap()
}

fn sealed(key: &[u8; 32], text: &[u8]) -> BYOEnvelope {
    seal(key, SenderRole::Desktop, "session-1", "corr-1", ContentType::ReasoningInput, text).unwrap()
}

#[test]
fn seal_and_open_roundtrip() {
    let key = test_key();
    let plaintext = b"hello world";
    let envelope = sealed(&key, plaintext);

    assert_eq!(envelope.version, ENVELOPE_VERSION);
    assert_eq!(envelope.sender_role, SenderRole::Desktop);
    assert_ne!(&envelope.ciphertext, plaintext);

    let decrypted = open(&key, &envelope).unwrap();
    assert_eq!(decrypted, plaintext);
}

#[test]
fn wrong_key_fails() {
    let key1 = test_key();
    let key2 = test_key();
    let envelope = sealed(&key1, b"secret");
    let result = open(&key2, &envelope);
    assert!(matches!(result, Err(CryptoError::Decryption)));
}

#[test]
fn tampered_ciphertext_fails() {
    let key = test_key();
    let mut envelope = sealed(&key, b"original");
    if let Some(byte) = envelope.ciphertext.first_mut() {
        *byte ^= 0xFF;
    }
    let result = open(&key, &envelope);
    assert!(matches!(result, Err(CryptoError::Decryption)));
}

#[test]
fn tampered_aad_session_id_fails() {
    let key = test_key();
    let mut envelope = sealed(&key, b"original");
    envelope.session_id = "session-TAMPERED".to_string();
    assert!(matches!(open(&key, &envelope), Err(CryptoError::Decryption)));
}

#[test]
fn tampered_aad_sender_role_fails() {
    let key = test_key();
    let mut envelope = sealed(&key, b"original");
    envelope.sender_role = SenderRole::Plugin;
    assert!(matches!(open(&key, &envelope), Err(CryptoError::Decryption)));
}

#[test]
fn tampered_aad_content_type_fails() {
    let key = test_key();
    let mut envelope = sealed(&key, b"original");
    envelope.content_type = ContentType::TaskContent;
    assert!(matches!(open(&key, &envelope), Err(CryptoError::Decryption)));
}

#[test]
fn unique_message_ids() {
    let key = test_key();
    let e1 = seal(&key, SenderRole::Desktop, "s", "c", ContentType::ReasoningInput, b"a").unwrap();
    let e2 = seal(&key, SenderRole::Desktop, "s", "c", ContentType::ReasoningInput, b"a").unwrap();
    assert_ne!(e1.message_id, e2.message_id);
}

#[test]
fn unique_nonces() {
    let key = test_key();
    let e1 = seal(&key, SenderRole::Desktop, "s", "c", ContentType::ReasoningInput, b"a").unwrap();
    let e2 = seal(&key, SenderRole::Desktop, "s", "c", ContentType::ReasoningInput, b"a").unwrap();
    assert_ne!(e1.nonce, e2.nonce);
}

#[test]
fn unsupported_version_rejected() {
    let key = test_key();
    let mut envelope = sealed(&key, b"data");
    envelope.version = "static_v99".to_string();
    let result = open(&key, &envelope);
    assert!(matches!(result, Err(CryptoError::UnsupportedVersion(_))));
}

#[test]
fn a_short_nonce_is_an_invalid_envelope() {
    let key = test_key();
    let mut envelope = sealed(&key, b"data");
    envelope.nonce.truncate(12);
    match open(&key, &envelope) {
        Err(e @ CryptoError::InvalidEnvelope(_)) => {
            assert_eq!(e.message(), "invalid envelope: nonce must be 24 bytes, got 12");
        }
        other => panic!("unexpected {other:?}"),
    }
}

#[test]
fn replay_guard_detects_duplicate() {
    let key = test_key();
    let envelope = sealed(&key, b"data");
    let mut guard = ReplayGuard::new();
    let first = open_checked(&key, &envelope, &mut guard);
    assert!(first.is_ok());
    let second = open_checked(&key, &envelope, &mut guard);
    assert!(matches!(second, Err(CryptoError::ReplayDetected(_))));
}

#[test]
fn replay_guard_allows_different_messages() {
    let key = test_key();
    let e1 = seal(&key, SenderRole::Desktop, "s", "c", ContentType::ReasoningInput, b"a").unwrap();
    let e2 = seal(&key, SenderRole::Desktop, "s", "c", ContentType::ReasoningInput, b"b").unwrap();
    let mut guard = ReplayGuard::new();
    assert!(open_checked(&key, &e1, &mut guard).is_ok());
    assert!(open_checked(&key, &e2, &mut guard).is_ok());
}

#[test]
fn the_guard_forgets_only_the_oldest_ids_beyond_its_capacity() {
    let mut guard = ReplayGuard::default();
    assert!(guard.check("first").is_ok());
    for i in 0..(REPLAY_GUARD_MAX_IDS - 1) {
        assert!(guard.check(&format!("id-{i}")).is_ok());
    }
    assert!(matches!(guard.check("first"), Err(CryptoError::ReplayDetected(_))));
    assert!(guard.check("one-more").is_ok());
    assert!(guard.check("first").is_ok());
    assert!(matches!(guard.check("id-5"), Err(CryptoError::ReplayDetected(_))));
}

#[test]
fn aad_is_alphabetically_ordered_json() {
    let envelope = BYOEnvelope {
        version: ENVELOPE_VERSION.to_string(),
        sender_role: SenderRole::Desktop,
        message_id: "test-id".to_string(),
        session_id: "sess-1".to_string(),
        correlation_id: "corr-1".to_string(),
        content_type: ContentType::ReasoningInput,
        nonce: vec![],
        ciphertext: vec![],
    };
    let aad = envelope.build_aad();
    let aad_str = String::from_utf8(aad).unwrap();
    let expected = r#"{"content_type":"reasoning_input","correlation_id":"corr-1","message_id":"test-id","sender_role":"desktop","session_id":"sess-1","version":"static_v1"}"#;
    assert_eq!(aad_str, expected);
}

#[test]
fn roles_are_each_others_opposite() {
    assert_eq!(SenderRole::Desktop.opposite(), SenderRole::Plugin);
    assert_eq!(SenderRole::Plugin.opposite(), SenderRole::Desktop);
    assert_eq!(SenderRole::Plugin.as_str(), "plugin");
    assert_eq!(ContentType::ToolResult.as_str(), "tool_result");
}

#[test]
fn amk_generate_and_roundtrip() {
    let amk = AccountMasterKey::generate();
    let wrapped = self_wrap_amk(&amk).unwrap();
    let unwrapped = self_unwrap_amk(&wrapped, &amk).unwrap();
    assert_eq!(amk.as_bytes(), unwrapped.as_bytes());
}

#[test]
fn device_identity_generate_is_deterministic_from_seed() {
    let id = DeviceIdentity::generate();
    assert_eq!(id.encryption_public.len(), 32);
    assert_eq!(id.signing_public.len(), 32);
    let sk = id.signing_key();
    assert_eq!(sk.verifying_key().to_bytes(), id.signing_public);
    let secret = x25519_dalek::StaticSecret::from(id.encryption_private);
    assert_eq!(x25519_dalek::PublicKey::from(&secret).to_bytes(), id.encryption_public);
}

#[test]
fn self_unwrap_rejects_tamper() {
    let amk = AccountMasterKey::generate();
    let mut wrapped = self_wrap_amk(&amk).unwrap();
    wrapped.wrapped_amk[0] ^= 0xFF;
    let res = self_unwrap_amk(&wrapped, &amk);
    assert!(res.is_err());
}

#[test]
fn unwrapping_with_another_key_fails() {
    let amk = AccountMasterKey::from_bytes([7u8; 32]);
    let other = AccountMasterKey::from_bytes([8u8; 32]);
    let wrapped = self_wrap_amk(&amk).unwrap();
    assert!(matches!(self_unwrap_amk(&wrapped, &other), Err(CryptoError::InvalidEnvelope(_))));
    assert_eq!(amk.as_bytes(), &[7u8; 32]);
}

#[test]
fn error_messages_read_as_before() {
    assert_eq!(CryptoError::ReplayDetected("m1".to_string()).message(), "replay detected: message_id m1 already seen");
    assert_eq!(
        CryptoError::SenderRoleMismatch { expected: "desktop".to_string(), got: "plugin".to_string() }.message(),
        "sender role mismatch: expected desktop, got plugin"
    );
    assert_eq!(CryptoError::Decryption.message(), "decryption failed: authenticated decryption rejected");
}
