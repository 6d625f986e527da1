# stagewhisper

The verified core of the StageWhisper Lite desktop app: the logic that decides what happens to
an assistant's replies, to sealed envelopes, to relay settings and pairing codes, to model
downloads and to a capture session's audio, proved with Verus.

## Layout

- `src/`: the library, verified.
  - `reply_router/`: the pending-task registry (reservations, completions, restarts), probe
    registrations, the sink the app implements, and the reply router as a state machine whose
    every run is a replay of the answers the sink gave to its calls.
  - `chat_reply_listener.rs`: the loopback listener's request handling (bearer check, request
    checks, routing, HTTP answer).
  - `reply_stream.rs`: streamed reply frames and the per-session stream subscriptions.
  - `crypto/`: key derivation, the sealed envelope format and its replay guard, the account
    master key.
  - `relay.rs`, `relay_settings.rs`, `relay_probe.rs`, `pairing.rs`: the relay endpoint, its
    settings, pairing codes and the approval probe.
  - `download.rs`: choosing which model files to fetch and when a model is ready.
  - `capture.rs`, `accumulate.rs`, `diarization.rs`, `notes.rs`: the capture session's
    decisions, its transcript, speaker labels and the notes settings.
  - `keyed.rs`, `text.rs`, `clock.rs`: string-keyed lists and text helpers with their lemmas,
    and the clock.
- `tests/`: tests of the library through its public interface.
- `app/`: the ordinary Rust around it: JSON forms, settings files, the HTTP client and
  listener, downloads, and the audio loop.

Calls into outside crates (ciphers, HKDF, base64, URL and IP parsing, UUIDs, randomness, the
clock) go through small trusted wrappers whose contracts say what those crates document.
