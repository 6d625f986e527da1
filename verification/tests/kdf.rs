use zeroize::Zeroize;
use hkdf::Hkdf;
use sha2::Sha256;
use stagewhisper::crypto::kdf::{
    derive_audio_key, derive_cache_key, derive_content_wrapping_key, derive_db_key,
    derive_envelope_key, derive_file_key, derive_index_key, derive_key_with_context,
};

#[test]
fn derived_keys_are_deterministic() {
    let secret = [0xABu8; 32];
    let k1 = derive_envelope_key(&secret).unwrap();
    let k2 = derive_envelope_key(&secret).unwrap();
    assert_eq!(k1, k2);
}

#[test]
fn different_info_produces_different_keys() {
    let secret = [0xABu8; 32];
    let envelope = derive_envelope_key(&secret).unwrap();
    let db = derive_db_key(&secret).unwrap();
    let audio = derive_audio_key(&secret).unwrap();
    assert_ne!(envelope, db);
    assert_ne!(db, audio);
}

#[test]
fn different_secrets_produce_different_keys() {
    let s1 = [0xAAu8; 32];
    let s2 = [0xBBu8; 32];
    let k1 = derive_envelope_key(&s1).unwrap();
    let k2 = derive_envelope_key(&s2).unwrap();
    assert_ne!(k1, k2);
}

#[test]
fn zeroize_works() {
    let secret = [0xABu8; 32];
    let mut key = derive_envelope_key(&secret).unwrap();
    let non_zero = key;
    key.zeroize();
    assert_ne!(non_zero, key);
    assert_eq!(key, [0u8; 32]);
}

#[test]
fn every_label_gives_its_own_key() {
    let secret = [0x11u8; 32];
    let keys = [
        derive_envelope_key(&secret).unwrap(),
        derive_db_key(&secret).unwrap(),
        derive_audio_key(&secret).unwrap(),
        derive_cache_key(&secret).unwrap(),
        derive_index_key(&secret).unwrap(),
        derive_file_key(&secret).unwrap(),
        derive_content_wrapping_key(&secret).unwrap(),
    ];
    for i in 0..keys.len() {
        for j in (i + 1)..keys.len() {
            assert_ne!(keys[i], keys[j]);
        }
    }
}

#[test]
fn a_context_key_is_the_key_of_its_prefixed_label() {
    let secret = [0x22u8; 32];
    assert_eq!(
        derive_key_with_context(&secret, "byo-envelope-v1").unwrap(),
        derive_envelope_key(&secret).unwrap()
    );
    assert_eq!(
        derive_key_with_context(&secret, "local-db-key").unwrap(),
        derive_db_key(&secret).unwrap()
    );
    assert_ne!(
        derive_key_with_context(&secret, "other").unwrap(),
        derive_db_key(&secret).unwrap()
    );
}

#[test]
fn the_envelope_key_matches_the_hkdf_reference_value() {
    let secret = [0xABu8; 32];
    let hk = Hkdf::<Sha256>::new(None, &secret);
    let mut okm = [0u8; 32];
    hk.expand(b"stagewhisper-byo-envelope-v1", &mut okm).unwrap();
    assert_eq!(derive_envelope_key(&secret).unwrap(), okm);
    assert_ne!(derive_envelope_key(&secret).unwrap(), secret);
}
