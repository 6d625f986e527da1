//! What the notes pipeline is told when a session ends: how to summarise it, and whether the
//! assistant may be asked at all.
use vstd::prelude::*;

use crate::relay_settings::{configured, RelaySettings};

verus! {

pub const PAIRING_BLOCKED_MESSAGE: &'static str = "Your assistant hasn't approved this device yet. Open Connection settings to finish pairing, then record again.";

pub const LOCAL_MODEL_NOT_READY: &'static str = "Your local model isn't ready yet.";

/// The settings the notes pipeline runs with.
#[derive(Debug, Clone, PartialEq, Eq)]
pub struct NotesSettings {
    /// A relay is configured.
    pub has_relay: bool,
    /// Why the assistant cannot be asked yet, if it cannot: its pairing is not verified.
    pub pairing_blocked: Option<String>,
    /// The summary is written by the local model.
    pub use_local_summary: bool,
}

/// The notes settings for the relay settings `relay`, a local model that is (`local_ready`) or
/// is not loaded, and the user's preference for it: the local model summarises when it is
/// loaded and either preferred or the only way (no relay).
pub fn notes_settings(relay: &RelaySettings, local_ready: bool, prefers_local: bool) -> (n: NotesSettings)
    ensures
        n.has_relay == configured(relay@),
        !relay.paired_verified ==> (n.pairing_blocked matches Some(m) && m@ == PAIRING_BLOCKED_MESSAGE@),
        relay.paired_verified ==> n.pairing_blocked is None,
        n.use_local_summary == (local_ready && (prefers_local || !configured(relay@))),
{
    let has_relay = relay.has_relay();
    NotesSettings {
        has_relay,
        pairing_blocked: if !relay.paired_verified {
            Some(PAIRING_BLOCKED_MESSAGE.to_owned())
        } else {
            None
        },
        use_local_summary: local_ready && (prefers_local || !has_relay),
    }
}

/// Whether a summary may be sent to the assistant: not while the user prefers the local model
/// and it is not loaded yet.
pub fn summary_may_be_sent(prefers_local: bool, local_ready: bool) -> (r: Result<(), String>)
    ensures
        prefers_local && !local_ready ==> (r matches Err(m) && m@ == LOCAL_MODEL_NOT_READY@),
        !(prefers_local && !local_ready) ==> r is Ok,
{
    if prefers_local && !local_ready {
        Err(LOCAL_MODEL_NOT_READY.to_owned())
    } else {
        Ok(())
    }
}

} // verus!
