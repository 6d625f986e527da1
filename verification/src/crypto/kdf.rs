//! Key derivation: every key of the application is HKDF-SHA256 of a 32-byte secret under a
//! label of its own.
use hkdf::Hkdf;
use sha2::Sha256;
use vstd::prelude::*;

use crate::crypto::errors::CryptoError;
use crate::text::push_str;
use vstd::utf8::encode_utf8;

verus! {

pub const ENVELOPE_INFO: &'static str = "stagewhisper-byo-envelope-v1";
pub const LOCAL_DB_INFO: &'static str = "stagewhisper-local-db-key";
pub const LOCAL_AUDIO_INFO: &'static str = "stagewhisper-local-audio-key";
pub const LOCAL_CACHE_INFO: &'static str = "stagewhisper-local-cache-key";
pub const LOCAL_INDEX_INFO: &'static str = "stagewhisper-local-index-key";
pub const LOCAL_FILE_INFO: &'static str = "stagewhisper-local-file-key";
pub const CONTENT_WRAPPING_INFO: &'static str = "sw/cwk/v1";

/// The 32 bytes of HKDF-SHA256 (no salt) expanded from `ikm` under `info`.
pub uninterp spec fn hkdf_sha256(ikm: Seq<u8>, info: Seq<u8>) -> Seq<u8>;

/// `Hkdf::<Sha256>::new(None, ikm)` then `expand(info, ..)` into 32 bytes.
///
/// `expand` fails only when asked for more than 255 hash blocks, so a 32-byte output is
/// always produced; its bytes are those of HKDF-SHA256, named by [`hkdf_sha256`].
#[verifier::external_body]
fn hkdf_expand_32(ikm: &[u8; 32], info: &[u8]) -> (r: Result<[u8; 32], String>)
    ensures
        r is Ok,
        r->Ok_0@ == hkdf_sha256(ikm@, info@),
{
    let hk = Hkdf::<Sha256>::new(None, ikm);
    let mut okm = [0u8; 32];
    match hk.expand(info, &mut okm) {
        Ok(()) => Ok(okm),
        Err(e) => Err(e.to_string()),
    }
}

/// The key derived from `ikm` under the label `info`.
fn derive_key(ikm: &[u8; 32], info: &[u8]) -> (r: Result<[u8; 32], CryptoError>)
    ensures
        r matches Ok(k) && k@ == hkdf_sha256(ikm@, info@),
{
    match hkdf_expand_32(ikm, info) {
        Ok(okm) => Ok(okm),
        Err(e) => Err(CryptoError::KeyDerivation(e)),
    }
}

/// The key of the message envelopes exchanged with the assistant, from their shared secret.
pub fn derive_envelope_key(shared_secret: &[u8; 32]) -> (r: Result<[u8; 32], CryptoError>)
    ensures
        r matches Ok(k) && k@ == hkdf_sha256(
            shared_secret@,
            encode_utf8(ENVELOPE_INFO@),
        ),
{
    derive_key(shared_secret, ENVELOPE_INFO.as_bytes())
}

/// The key of the local database, from the local root key.
pub fn derive_db_key(root_key: &[u8; 32]) -> (r: Result<[u8; 32], CryptoError>)
    ensures
        r matches Ok(k) && k@ == hkdf_sha256(root_key@, encode_utf8(LOCAL_DB_INFO@)),
{
    derive_key(root_key, LOCAL_DB_INFO.as_bytes())
}

/// The key of the local audio files.
pub fn derive_audio_key(root_key: &[u8; 32]) -> (r: Result<[u8; 32], CryptoError>)
    ensures
        r matches Ok(k) && k@ == hkdf_sha256(root_key@, encode_utf8(LOCAL_AUDIO_INFO@)),
{
    derive_key(root_key, LOCAL_AUDIO_INFO.as_bytes())
}

/// The key of the local cache.
pub fn derive_cache_key(root_key: &[u8; 32]) -> (r: Result<[u8; 32], CryptoError>)
    ensures
        r matches Ok(k) && k@ == hkdf_sha256(root_key@, encode_utf8(LOCAL_CACHE_INFO@)),
{
    derive_key(root_key, LOCAL_CACHE_INFO.as_bytes())
}

/// The key of the local search index.
pub fn derive_index_key(root_key: &[u8; 32]) -> (r: Result<[u8; 32], CryptoError>)
    ensures
        r matches Ok(k) && k@ == hkdf_sha256(root_key@, encode_utf8(LOCAL_INDEX_INFO@)),
{
    derive_key(root_key, LOCAL_INDEX_INFO.as_bytes())
}

/// The key of the local encrypted files.
pub fn derive_file_key(root_key: &[u8; 32]) -> (r: Result<[u8; 32], CryptoError>)
    ensures
        r matches Ok(k) && k@ == hkdf_sha256(root_key@, encode_utf8(LOCAL_FILE_INFO@)),
{
    derive_key(root_key, LOCAL_FILE_INFO.as_bytes())
}

/// The content-wrapping key, from the account master key.
pub fn derive_content_wrapping_key(amk: &[u8; 32]) -> (r: Result<[u8; 32], CryptoError>)
    ensures
        r matches Ok(k) && k@ == hkdf_sha256(amk@, encode_utf8(CONTENT_WRAPPING_INFO@)),
{
    derive_key(amk, CONTENT_WRAPPING_INFO.as_bytes())
}

/// The key derived under the label `stagewhisper-<context>`.
pub fn derive_key_with_context(ikm: &[u8; 32], context: &str) -> (r: Result<
    [u8; 32],
    CryptoError,
>)
    ensures
        r matches Ok(k) && k@ == hkdf_sha256(ikm@, encode_utf8("stagewhisper-"@ + context@)),
{
    let mut info = String::new();
    push_str(&mut info, "stagewhisper-");
    push_str(&mut info, context);
    proof {
        assert(info@ =~= "stagewhisper-"@ + context@);
    }
    derive_key(ikm, info.as_str().as_bytes())
}

} // verus!
