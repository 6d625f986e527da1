//! The end-to-end encryption layer: key derivation, the account master key, and the sealed
//! envelopes exchanged with the assistant.
pub mod amk;
pub mod envelope;
pub mod errors;
pub mod kdf;
pub mod random;
