//! Sealed envelopes: XChaCha20-Poly1305 ciphertext whose header is bound to it as associated
//! data, and the guard that refuses a message id seen before.
use chacha20poly1305::aead::{Aead, KeyInit, Payload};
use chacha20poly1305::{XChaCha20Poly1305, XNonce};
use vstd::prelude::*;
use vstd::slice::slice_to_vec;
use vstd::utf8::encode_utf8;

use crate::crypto::errors::{
    is_encryption_error, is_invalid_envelope, is_replay_of, is_unsupported_version, CryptoError,
};
use crate::crypto::random::os_random;
use crate::keyed::{excess, find_str, keep_newest, lemma_push_fresh, lemma_suffix_no_dup, str_eq, strs};
use crate::text::{decimal, push_dec, push_str};

verus! {

pub const ENVELOPE_VERSION: &'static str = "static_v1";

/// How many message ids a [`ReplayGuard`] remembers.
pub const REPLAY_GUARD_MAX_IDS: usize = 10_000;

/// The longest plaintext the cipher takes: fewer than `u32::MAX` blocks of 64 bytes.
pub open spec fn sealable(len: nat) -> bool {
    len / 64 < 0xffff_ffff
}

#[derive(Debug, Clone, Copy, PartialEq, Eq, Structural)]
pub enum SenderRole {
    Desktop,
    Plugin,
}

impl SenderRole {
    /// The role of the other end.
    pub fn opposite(&self) -> (r: SenderRole)
        ensures
            r != *self,
    {
        match self {
            SenderRole::Desktop => SenderRole::Plugin,
            SenderRole::Plugin => SenderRole::Desktop,
        }
    }

    /// The role's name on the wire.
    pub fn as_str(&self) -> (s: &'static str)
        ensures
            s@ == role_name(*self),
    {
        match self {
            SenderRole::Desktop => "desktop",
            SenderRole::Plugin => "plugin",
        }
    }
}

pub open spec fn role_name(r: SenderRole) -> Seq<char> {
    match r {
        SenderRole::Desktop => "desktop"@,
        SenderRole::Plugin => "plugin"@,
    }
}

#[derive(Debug, Clone, Copy, PartialEq, Eq, Structural)]
pub enum ContentType {
    ReasoningInput,
    ReasoningOutput,
    ToolIntent,
    ToolResult,
    TaskContent,
    TaskReply,
}

pub open spec fn content_type_name(c: ContentType) -> Seq<char> {
    match c {
        ContentType::ReasoningInput => "reasoning_input"@,
        ContentType::ReasoningOutput => "reasoning_output"@,
        ContentType::ToolIntent => "tool_intent"@,
        ContentType::ToolResult => "tool_result"@,
        ContentType::TaskContent => "task_content"@,
        ContentType::TaskReply => "task_reply"@,
    }
}

impl ContentType {
    /// The content type's name on the wire.
    pub fn as_str(&self) -> (s: &'static str)
        ensures
            s@ == content_type_name(*self),
    {
        match self {
            ContentType::ReasoningInput => "reasoning_input",
            ContentType::ReasoningOutput => "reasoning_output",
            ContentType::ToolIntent => "tool_intent",
            ContentType::ToolResult => "tool_result",
            ContentType::TaskContent => "task_content",
            ContentType::TaskReply => "task_reply",
        }
    }
}

/// A sealed message: its header in the clear, its body encrypted.
#[derive(Debug, Clone)]
pub struct BYOEnvelope {
    pub version: String,
    pub sender_role: SenderRole,
    pub message_id: String,
    pub session_id: String,
    pub correlation_id: String,
    pub content_type: ContentType,
    pub nonce: Vec<u8>,
    pub ciphertext: Vec<u8>,
}

/// How `serde_json` writes a string: quoted, with its escapes.
pub uninterp spec fn json_string(s: Seq<char>) -> Seq<char>;

/// `serde_json::to_string(s)`, which cannot fail for a string.
#[verifier::external_body]
pub(crate) fn json_quote(s: &str) -> (r: String)
    ensures
        r@ == json_string(s@),
{
    match serde_json::to_string(s) {
        Ok(q) => q,
        Err(_) => String::new(),
    }
}

/// The header as bound to the ciphertext: a JSON object of the six header fields, keys in
/// alphabetical order, no spaces.
pub open spec fn aad_text(e: BYOEnvelope) -> Seq<char> {
    "{\"content_type\":"@ + json_string(content_type_name(e.content_type))
        + ",\"correlation_id\":"@ + json_string(e.correlation_id@) + ",\"message_id\":"@
        + json_string(e.message_id@) + ",\"sender_role\":"@ + json_string(
        role_name(e.sender_role),
    ) + ",\"session_id\":"@ + json_string(e.session_id@) + ",\"version\":"@ + json_string(
        e.version@,
    ) + "}"@
}

pub open spec fn aad_bytes(e: BYOEnvelope) -> Seq<u8> {
    encode_utf8(aad_text(e))
}

/// XChaCha20-Poly1305 ciphertext (with its tag) of `msg` under `key`, `nonce` and `aad`.
pub uninterp spec fn xchacha_seal(key: Seq<u8>, nonce: Seq<u8>, aad: Seq<u8>, msg: Seq<u8>) -> Seq<u8>;

/// The plaintext that XChaCha20-Poly1305 authenticates and recovers from `ct`, if any.
pub uninterp spec fn xchacha_open(key: Seq<u8>, nonce: Seq<u8>, aad: Seq<u8>, ct: Seq<u8>) -> Option<Seq<u8>>;

/// `XChaCha20Poly1305::new(key).encrypt(nonce, Payload { msg, aad })`.
///
/// The cipher refuses a message of `u32::MAX` blocks or more and encrypts any other; what it
/// produces, decrypted with the same key, nonce and associated data, gives the message back.
#[verifier::external_body]
fn xchacha_encrypt(key: &[u8; 32], nonce: &[u8; 24], aad: &[u8], msg: &[u8]) -> (r: Option<Vec<u8>>)
    ensures
        r is Some <==> sealable(msg@.len()),
        r is Some ==> r->0@ == xchacha_seal(key@, nonce@, aad@, msg@),
        r is Some ==> xchacha_open(key@, nonce@, aad@, r->0@) == Some(msg@),
{
    let cipher = XChaCha20Poly1305::new(key.into());
    cipher.encrypt(XNonce::from_slice(nonce), Payload { msg, aad }).ok()
}

/// `XChaCha20Poly1305::new(key).decrypt(nonce, Payload { msg: ct, aad })`.
#[verifier::external_body]
fn xchacha_decrypt(key: &[u8; 32], nonce: &[u8], aad: &[u8], ct: &[u8]) -> (r: Option<Vec<u8>>)
    requires
        nonce@.len() == 24,
    ensures
        r is Some <==> xchacha_open(key@, nonce@, aad@, ct@) is Some,
        r is Some ==> xchacha_open(key@, nonce@, aad@, ct@) == Some(r->0@),
{
    let cipher = XChaCha20Poly1305::new(key.into());
    cipher.decrypt(XNonce::from_slice(nonce), Payload { msg: ct, aad }).ok()
}

/// A fresh random (version 4) UUID in its hyphenated form. Nothing is stated of its value.
#[verifier::external_body]
fn new_message_id() -> (id: String) {
    uuid::Uuid::new_v4().to_string()
}

impl BYOEnvelope {
    /// The header bytes bound to the ciphertext.
    pub fn build_aad(&self) -> (aad: Vec<u8>)
        ensures
            aad@ == aad_bytes(*self),
    {
        let mut s = String::new();
        push_str(&mut s, "{\"content_type\":");
        push_str(&mut s, json_quote(self.content_type.as_str()).as_str());
        push_str(&mut s, ",\"correlation_id\":");
        push_str(&mut s, json_quote(self.correlation_id.as_str()).as_str());
        push_str(&mut s, ",\"message_id\":");
        push_str(&mut s, json_quote(self.message_id.as_str()).as_str());
        push_str(&mut s, ",\"sender_role\":");
        push_str(&mut s, json_quote(self.sender_role.as_str()).as_str());
        push_str(&mut s, ",\"session_id\":");
        push_str(&mut s, json_quote(self.session_id.as_str()).as_str());
        push_str(&mut s, ",\"version\":");
        push_str(&mut s, json_quote(self.version.as_str()).as_str());
        push_str(&mut s, "}");
        assert(s@ =~= aad_text(*self));
        slice_to_vec(s.as_str().as_bytes())
    }
}

/// What [`open`] recovers from an envelope under `key`: nothing unless the version is ours,
/// the nonce is 24 bytes and the cipher authenticates the ciphertext and header.
pub open spec fn opens_to(key: Seq<u8>, e: BYOEnvelope) -> Option<Seq<u8>> {
    if e.version@ == ENVELOPE_VERSION@ && e.nonce@.len() == 24 {
        xchacha_open(key, e.nonce@, aad_bytes(e), e.ciphertext@)
    } else {
        None
    }
}

/// Seals `plaintext` from `sender_role` in a fresh envelope with a random message id and
/// nonce; the header is bound to the ciphertext.
pub fn seal(
    key: &[u8; 32],
    sender_role: SenderRole,
    session_id: &str,
    correlation_id: &str,
    content_type: ContentType,
    plaintext: &[u8],
) -> (r: Result<BYOEnvelope, CryptoError>)
    ensures
        r is Ok <==> sealable(plaintext@.len()),
        r matches Err(e) ==> is_encryption_error(e, "XChaCha20-Poly1305 seal failed"@),
        r matches Ok(env) ==> {
            &&& env.version@ == ENVELOPE_VERSION@
            &&& env.sender_role == sender_role
            &&& env.session_id@ == session_id@
            &&& env.correlation_id@ == correlation_id@
            &&& env.content_type == content_type
            &&& env.nonce@.len() == 24
            &&& env.ciphertext@ == xchacha_seal(key@, env.nonce@, aad_bytes(env), plaintext@)
            &&& opens_to(key@, env) == Some(plaintext@)
        },
{
    let message_id = new_message_id();
    let nonce: [u8; 24] = os_random();
    let envelope = BYOEnvelope {
        version: ENVELOPE_VERSION.to_owned(),
        sender_role,
        message_id,
        session_id: session_id.to_owned(),
        correlation_id: correlation_id.to_owned(),
        content_type,
        nonce: slice_to_vec(&nonce),
        ciphertext: Vec::new(),
    };
    let aad = envelope.build_aad();
    match xchacha_encrypt(key, &nonce, aad.as_slice(), plaintext) {
        Some(ciphertext) => {
            let sealed = BYOEnvelope { ciphertext, ..envelope };
            assert(aad_text(sealed) == aad_text(envelope));
            Ok(sealed)
        },
        None => Err(CryptoError::Encryption("XChaCha20-Poly1305 seal failed".to_owned())),
    }
}

/// What opening `envelope` under `key` gives: an unsupported version or a nonce of the wrong
/// length is refused as such; otherwise the plaintext it authenticates to, or a decryption
/// failure.
pub open spec fn opened_as(key: Seq<u8>, envelope: BYOEnvelope, r: Result<Vec<u8>, CryptoError>) -> bool {
    if envelope.version@ != ENVELOPE_VERSION@ {
        r matches Err(e) && is_unsupported_version(e, envelope.version@)
    } else if envelope.nonce@.len() != 24 {
        r matches Err(e) && is_invalid_envelope(
            e,
            "nonce must be 24 bytes, got "@ + decimal(envelope.nonce@.len()),
        )
    } else {
        match opens_to(key, envelope) {
            Some(p) => (r matches Ok(v) && v@ == p),
            None => (r matches Err(e) && e == CryptoError::Decryption),
        }
    }
}

/// Opens an envelope under `key`.
pub fn open(key: &[u8; 32], envelope: &BYOEnvelope) -> (r: Result<Vec<u8>, CryptoError>)
    ensures
        opened_as(key@, *envelope, r),
{
    if !str_eq(envelope.version.as_str(), ENVELOPE_VERSION) {
        return Err(CryptoError::UnsupportedVersion(envelope.version.clone()));
    }
    if envelope.nonce.len() != 24 {
        let mut m = String::new();
        push_str(&mut m, "nonce must be 24 bytes, got ");
        push_dec(&mut m, envelope.nonce.len() as u64);
        return Err(CryptoError::InvalidEnvelope(m));
    }
    let aad = envelope.build_aad();
    match xchacha_decrypt(key, envelope.nonce.as_slice(), aad.as_slice(), envelope.ciphertext.as_slice()) {
        Some(p) => Ok(p),
        None => Err(CryptoError::Decryption),
    }
}

/// The ids a guard keeps once it takes one more: the newest `REPLAY_GUARD_MAX_IDS - 1`.
pub open spec fn room_for_one(seen: Seq<Seq<char>>) -> Seq<Seq<char>> {
    seen.subrange(
        excess(seen.len() as int, REPLAY_GUARD_MAX_IDS - 1),
        seen.len() as int,
    )
}

/// What a guard remembers after accepting a fresh id.
pub open spec fn after_accept(seen: Seq<Seq<char>>, id: Seq<char>) -> Seq<Seq<char>> {
    room_for_one(seen).push(id)
}

/// Remembers the most recent message ids and refuses one it has seen.
pub struct ReplayGuard {
    /// The ids seen, oldest first.
    ids: Vec<String>,
}

impl View for ReplayGuard {
    type V = Seq<Seq<char>>;

    closed spec fn view(&self) -> Seq<Seq<char>> {
        strs(self.ids@)
    }
}

impl ReplayGuard {
    /// No id twice, and no more than the guard remembers.
    pub closed spec fn wf(&self) -> bool {
        &&& strs(self.ids@).no_duplicates()
        &&& self.ids@.len() <= REPLAY_GUARD_MAX_IDS
    }

    pub fn new() -> (g: ReplayGuard)
        ensures
            g.wf(),
            g@ == Seq::<Seq<char>>::empty(),
    {
        let g = ReplayGuard { ids: Vec::new() };
        assert(strs(g.ids@) =~= Seq::<Seq<char>>::empty());
        g
    }

    /// Refuses an id already seen; else remembers it, forgetting the oldest ids beyond the
    /// guard's capacity.
    pub fn check(&mut self, message_id: &str) -> (r: Result<(), CryptoError>)
        requires
            old(self).wf(),
        ensures
            final(self).wf(),
            final(self)@ == guard_step(old(self)@, message_id@),
            old(self)@.contains(message_id@) ==> (r matches Err(e) && is_replay_of(e, message_id@)
                && final(self)@ == old(self)@),
            !old(self)@.contains(message_id@) ==> r is Ok && final(self)@ == after_accept(
                old(self)@,
                message_id@,
            ),
    {
        if find_str(&self.ids, message_id).is_some() {
            return Err(CryptoError::ReplayDetected(message_id.to_owned()));
        }
        let ghost before = strs(self.ids@);
        keep_newest(&mut self.ids, REPLAY_GUARD_MAX_IDS - 1);
        let ghost kept = strs(self.ids@);
        proof {
            lemma_suffix_no_dup(before, excess(before.len() as int, REPLAY_GUARD_MAX_IDS - 1));
            assert(!kept.contains(message_id@)) by {
                if kept.contains(message_id@) {
                    let j = choose|j: int| 0 <= j < kept.len() && kept[j] == message_id@;
                    let k = excess(before.len() as int, REPLAY_GUARD_MAX_IDS - 1);
                    assert(before[j + k] == message_id@);
                }
            }
        }
        self.ids.push(message_id.to_owned());
        proof {
            assert(strs(self.ids@) =~= kept.push(message_id@));
            lemma_push_fresh(kept, message_id@);
        }
        Ok(())
    }
}

impl Default for ReplayGuard {
    fn default() -> (g: ReplayGuard)
        ensures
            g.wf(),
            g@ == Seq::<Seq<char>>::empty(),
    {
        ReplayGuard::new()
    }
}

/// Opens an envelope whose message id the guard has not seen, and remembers the id.
pub fn open_checked(
    key: &[u8; 32],
    envelope: &BYOEnvelope,
    replay_guard: &mut ReplayGuard,
) -> (r: Result<Vec<u8>, CryptoError>)
    requires
        old(replay_guard).wf(),
    ensures
        final(replay_guard).wf(),
        old(replay_guard)@.contains(envelope.message_id@) ==> (r matches Err(e) && is_replay_of(
            e,
            envelope.message_id@,
        ) && final(replay_guard)@ == old(replay_guard)@),
        !old(replay_guard)@.contains(envelope.message_id@) ==> {
            &&& final(replay_guard)@ == after_accept(old(replay_guard)@, envelope.message_id@)
            &&& opened_as(key@, *envelope, r)
        },
{
    match replay_guard.check(envelope.message_id.as_str()) {
        Err(e) => Err(e),
        Ok(()) => open(key, envelope),
    }
}

/// What a guard remembers after one `check` of `id`.
pub open spec fn guard_step(seen: Seq<Seq<char>>, id: Seq<char>) -> Seq<Seq<char>> {
    if seen.contains(id) {
        seen
    } else {
        after_accept(seen, id)
    }
}

/// What a guard remembers after checking each of `ids` in turn.
pub open spec fn guard_steps(seen: Seq<Seq<char>>, ids: Seq<Seq<char>>) -> Seq<Seq<char>>
    decreases ids.len(),
{
    if ids.len() == 0 {
        seen
    } else {
        guard_steps(guard_step(seen, ids[0]), ids.drop_first())
    }
}

proof fn lemma_remembered(seen: Seq<Seq<char>>, i: int, later: Seq<Seq<char>>) -> (j: int)
    requires
        0 <= i < seen.len(),
        seen.len() - i + later.len() <= REPLAY_GUARD_MAX_IDS,
    ensures
        0 <= j < guard_steps(seen, later).len(),
        guard_steps(seen, later)[j] == seen[i],
    decreases later.len(),
{
    if later.len() == 0 {
        i
    } else {
        let x = later[0];
        let next = guard_step(seen, x);
        let i2 = if seen.contains(x) {
            i
        } else {
            i - excess(seen.len() as int, REPLAY_GUARD_MAX_IDS - 1)
        };
        assert(0 <= i2 < next.len() && next[i2] == seen[i] && next.len() - i2 <= seen.len() - i + 1);
        lemma_remembered(next, i2, later.drop_first())
    }
}

/// A message id, once accepted, is refused as a replay by each of the guard's next
/// `REPLAY_GUARD_MAX_IDS - 1` checks, whatever ids those checks are of.
pub proof fn law_accepted_id_stays_refused(seen: Seq<Seq<char>>, id: Seq<char>, later: Seq<Seq<char>>)
    requires
        !seen.contains(id),
        later.len() < REPLAY_GUARD_MAX_IDS,
    ensures
        guard_steps(after_accept(seen, id), later).contains(id),
{
    let s1 = after_accept(seen, id);
    let j = lemma_remembered(s1, s1.len() - 1, later);
    assert(guard_steps(s1, later)[j] == id);
}

/// An envelope as [`seal`] makes it opens, under the key it was sealed with, to the sealed
/// plaintext: whatever [`open`] returns for it is that plaintext.
pub proof fn law_sealed_envelope_opens(
    key: Seq<u8>,
    envelope: BYOEnvelope,
    plaintext: Seq<u8>,
    r: Result<Vec<u8>, CryptoError>,
)
    requires
        envelope.version@ == ENVELOPE_VERSION@,
        envelope.nonce@.len() == 24,
        opens_to(key, envelope) == Some(plaintext),
        opened_as(key, envelope, r),
    ensures
        r matches Ok(v) && v@ == plaintext,
{
}

} // verus!
