//! The account master key, the device's key pairs, and the master key sealed under itself.
use chacha20poly1305::aead::{Aead, KeyInit, Payload};
use chacha20poly1305::{ChaCha20Poly1305, Key, Nonce};
use ed25519_dalek::SigningKey;
use vstd::prelude::*;
use vstd::utf8::encode_utf8;

use crate::crypto::errors::{is_invalid_envelope, CryptoError};
use crate::crypto::random::os_random;

verus! {

pub const AMK_LEN: usize = 32;

/// The associated data that binds a self-wrapped master key to its purpose.
pub const SELF_WRAP_AAD: &'static str = "sw/amk/self-wrap/v1";

#[verifier::external_type_specification]
#[verifier::external_body]
pub struct ExSigningKey(SigningKey);

/// The account master key.
#[derive(Clone)]
pub struct AccountMasterKey {
    bytes: [u8; AMK_LEN],
}

impl View for AccountMasterKey {
    type V = Seq<u8>;

    closed spec fn view(&self) -> Seq<u8> {
        self.bytes@
    }
}

impl AccountMasterKey {
    /// A fresh key of random bytes.
    pub fn generate() -> (k: AccountMasterKey)
        ensures
            k@.len() == AMK_LEN,
    {
        AccountMasterKey { bytes: os_random() }
    }

    pub fn from_bytes(bytes: [u8; AMK_LEN]) -> (k: AccountMasterKey)
        ensures
            k@ == bytes@,
    {
        AccountMasterKey { bytes }
    }

    pub fn as_bytes(&self) -> (b: &[u8; AMK_LEN])
        ensures
            b@ == self@,
    {
        &self.bytes
    }
}

/// The X25519 public key of a secret (`PublicKey::from(&StaticSecret::from(secret))`).
pub uninterp spec fn x25519_public(secret: Seq<u8>) -> Seq<u8>;

/// The Ed25519 verifying key of a signing seed (`SigningKey::from_bytes(seed).verifying_key()`).
pub uninterp spec fn ed25519_public(seed: Seq<u8>) -> Seq<u8>;

/// `x25519_dalek::PublicKey::from(&StaticSecret::from(secret)).to_bytes()`.
#[verifier::external_body]
fn x25519_public_key(secret: [u8; 32]) -> (public: [u8; 32])
    ensures
        public@ == x25519_public(secret@),
{
    let secret = x25519_dalek::StaticSecret::from(secret);
    x25519_dalek::PublicKey::from(&secret).to_bytes()
}

/// `SigningKey::from_bytes(seed).verifying_key().to_bytes()`.
#[verifier::external_body]
fn ed25519_public_key(seed: &[u8; 32]) -> (public: [u8; 32])
    ensures
        public@ == ed25519_public(seed@),
{
    SigningKey::from_bytes(seed).verifying_key().to_bytes()
}

/// A device's key pairs: X25519 for encryption, Ed25519 for signing.
#[derive(Clone)]
pub struct DeviceIdentity {
    pub encryption_private: [u8; 32],
    pub encryption_public: [u8; 32],
    pub signing_seed: [u8; 32],
    pub signing_public: [u8; 32],
}

impl DeviceIdentity {
    /// The public halves belong to the private ones.
    pub open spec fn consistent(&self) -> bool {
        &&& self.encryption_public@ == x25519_public(self.encryption_private@)
        &&& self.signing_public@ == ed25519_public(self.signing_seed@)
    }

    /// Fresh random key pairs.
    pub fn generate() -> (id: DeviceIdentity)
        ensures
            id.consistent(),
    {
        let encryption_private: [u8; 32] = os_random();
        let encryption_public = x25519_public_key(encryption_private);
        let signing_seed: [u8; 32] = os_random();
        let signing_public = ed25519_public_key(&signing_seed);
        DeviceIdentity { encryption_private, encryption_public, signing_seed, signing_public }
    }

    /// The Ed25519 signing key of the seed (`SigningKey::from_bytes`).
    #[verifier::external_body]
    pub fn signing_key(&self) -> SigningKey {
        SigningKey::from_bytes(&self.signing_seed)
    }
}

/// The master key sealed under itself with ChaCha20-Poly1305.
#[derive(Clone)]
pub struct SelfWrappedAmk {
    pub wrapped_amk: Vec<u8>,
    pub nonce: [u8; 12],
}

/// ChaCha20-Poly1305 ciphertext (with its tag) of `msg` under `key`, `nonce` and `aad`.
pub uninterp spec fn chacha_seal(key: Seq<u8>, nonce: Seq<u8>, aad: Seq<u8>, msg: Seq<u8>) -> Seq<u8>;

/// The plaintext that ChaCha20-Poly1305 authenticates and recovers from `ct`, if any.
pub uninterp spec fn chacha_open(key: Seq<u8>, nonce: Seq<u8>, aad: Seq<u8>, ct: Seq<u8>) -> Option<Seq<u8>>;

/// `ChaCha20Poly1305::new(key).encrypt(nonce, Payload { msg, aad })`.
///
/// The cipher refuses a message of `u32::MAX` blocks of 64 bytes or more and encrypts any
/// other; decrypting what it produces with the same key, nonce and associated data gives the
/// message back.
#[verifier::external_body]
fn chacha_encrypt(key: &[u8; 32], nonce: &[u8; 12], aad: &[u8], msg: &[u8]) -> (r: Option<Vec<u8>>)
    ensures
        r is Some <==> msg@.len() / 64 < 0xffff_ffff,
        r is Some ==> r->0@ == chacha_seal(key@, nonce@, aad@, msg@),
        r is Some ==> chacha_open(key@, nonce@, aad@, r->0@) == Some(msg@),
{
    let cipher = ChaCha20Poly1305::new(Key::from_slice(key));
    cipher.encrypt(Nonce::from_slice(nonce), Payload { msg, aad }).ok()
}

/// `ChaCha20Poly1305::new(key).decrypt(nonce, Payload { msg: ct, aad })`.
#[verifier::external_body]
fn chacha_decrypt(key: &[u8; 32], nonce: &[u8; 12], aad: &[u8], ct: &[u8]) -> (r: Option<Vec<u8>>)
    ensures
        r is Some <==> chacha_open(key@, nonce@, aad@, ct@) is Some,
        r is Some ==> chacha_open(key@, nonce@, aad@, ct@) == Some(r->0@),
{
    let cipher = ChaCha20Poly1305::new(Key::from_slice(key));
    cipher.decrypt(Nonce::from_slice(nonce), Payload { msg: ct, aad }).ok()
}

/// The master key that unwrapping `w` with `key` recovers, if any: the authenticated plaintext,
/// when it is a key's length.
pub open spec fn unwrapped(w: SelfWrappedAmk, key: Seq<u8>) -> Option<Seq<u8>> {
    match chacha_open(key, w.nonce@, encode_utf8(SELF_WRAP_AAD@), w.wrapped_amk@) {
        Some(p) => if p.len() == AMK_LEN {
            Some(p)
        } else {
            None
        },
        None => None,
    }
}

/// Seals the master key under itself with a random nonce. Unwrapping the result with the
/// same key gives the key back.
pub fn self_wrap_amk(amk: &AccountMasterKey) -> (r: Result<SelfWrappedAmk, CryptoError>)
    ensures
        r is Ok,
        r matches Ok(w) ==> unwrapped(w, amk@) == Some(amk@),
{
    let nonce: [u8; 12] = os_random();
    let aad = SELF_WRAP_AAD.as_bytes();
    match chacha_encrypt(amk.as_bytes(), &nonce, aad, amk.as_bytes()) {
        Some(wrapped_amk) => Ok(SelfWrappedAmk { wrapped_amk, nonce }),
        None => Err(CryptoError::InvalidEnvelope("amk".to_owned())),
    }
}

/// What unwrapping `w` with `key` gives: the sealed master key, or an invalid envelope.
pub open spec fn unwrapped_as(w: SelfWrappedAmk, key: Seq<u8>, r: Result<AccountMasterKey, CryptoError>) -> bool {
    match unwrapped(w, key) {
        Some(k) => (r matches Ok(a) && a@ == k),
        None => (r matches Err(e) && is_invalid_envelope(e, "amk"@)),
    }
}

/// Recovers the master key sealed in `self_wrapped` with `amk`.
pub fn self_unwrap_amk(self_wrapped: &SelfWrappedAmk, amk: &AccountMasterKey) -> (r: Result<
    AccountMasterKey,
    CryptoError,
>)
    ensures
        unwrapped_as(*self_wrapped, amk@, r),
{
    let aad = SELF_WRAP_AAD.as_bytes();
    match chacha_decrypt(amk.as_bytes(), &self_wrapped.nonce, aad, self_wrapped.wrapped_amk.as_slice()) {
        Some(plaintext) => {
            if plaintext.len() != AMK_LEN {
                return Err(CryptoError::InvalidEnvelope("amk".to_owned()));
            }
            let mut bytes = [0u8; AMK_LEN];
            let mut i: usize = 0;
            while i < AMK_LEN
                invariant
                    i <= AMK_LEN,
                    plaintext@.len() == AMK_LEN,
                    forall|j: int| 0 <= j < i ==> bytes@[j] == plaintext@[j],
                decreases AMK_LEN - i,
            {
                bytes.set(i, plaintext[i]);
                i += 1;
            }
            assert(bytes@ =~= plaintext@);
            Ok(AccountMasterKey::from_bytes(bytes))
        },
        None => Err(CryptoError::InvalidEnvelope("amk".to_owned())),
    }
}

/// A master key wrapped by [`self_wrap_amk`] and unwrapped by [`self_unwrap_amk`] with the
/// same key comes back unchanged.
pub proof fn law_self_wrap_round_trip(
    amk: Seq<u8>,
    w: SelfWrappedAmk,
    r: Result<AccountMasterKey, CryptoError>,
)
    requires
        unwrapped(w, amk) == Some(amk),
        unwrapped_as(w, amk, r),
    ensures
        r matches Ok(a) && a@ == amk,
{
}

} // verus!
