use stagewhisper::notes::{
    notes_settings, summary_may_be_sent, LOCAL_MODEL_NOT_READY, PAIRING_BLOCKED_MESSAGE,
};
use stagewhisper::relay_settings::RelaySettings;

fn relay(url: &str, token: &str, verified: bool) -> RelaySettings {
    RelaySettings { relay_url: url.to_string(), relay_token: token.to_string(), paired_verified: verified }
}

#[test]
fn an_unverified_pairing_blocks_the_assistant() {
    let n = notes_settings(&relay("https://r.example", "t", false), false, false);
    assert!(n.has_relay);
    assert_eq!(n.pairing_blocked.as_deref(), Some(PAIRING_BLOCKED_MESSAGE));
    assert!(!n.use_local_summary);
    let n = notes_settings(&relay("https://r.example", "t", true), false, false);
    assert_eq!(n.pairing_blocked, None);
}

#[test]
fn the_local_model_summarises_when_loaded_and_preferred_or_alone() {
    assert!(notes_settings(&relay("", "", false), true, false).use_local_summary);
    assert!(notes_settings(&relay("https://r.example", "t", true), true, true).use_local_summary);
    assert!(!notes_settings(&relay("https://r.example", "t", true), true, false).use_local_summary);
    assert!(!notes_settings(&relay("", "", false), false, true).use_local_summary);
}

#[test]
fn a_summary_waits_for_a_preferred_local_model() {
    assert_eq!(summary_may_be_sent(true, false), Err(LOCAL_MODEL_NOT_READY.to_string()));
    assert_eq!(summary_may_be_sent(true, true), Ok(()));
    assert_eq!(summary_may_be_sent(false, false), Ok(()));
}
