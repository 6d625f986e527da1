use stagewhisper::pairing::{PairedRelay, PLAIN_HTTP_REFUSED};
use stagewhisper::relay_settings::{
    normalize_relay_url, pair_with_relay, save_relay_settings, RelaySettings, RelaySettingsStore,
};

#[test]
fn pairing_pending_requires_relay_and_blocks_until_verified() {
    let mut s = RelaySettings::default();
    assert!(!s.pairing_pending(), "no relay configured is not 'pending'");

    s.relay_url = "http://127.0.0.1:8765".to_string();
    s.relay_token = "tok".to_string();
    assert!(
        s.pairing_pending(),
        "configured relay without verified pairing must be pending"
    );
    assert!(!s.ready(), "pending pairing is not ready to record");

    s.paired_verified = true;
    assert!(
        !s.pairing_pending(),
        "verified pairing clears pending state"
    );
    assert!(s.ready(), "configured and verified relay is ready");
}

#[test]
fn leaves_clean_base() {
    assert_eq!(
        normalize_relay_url("http://127.0.0.1:8765"),
        "http://127.0.0.1:8765"
    );
}

#[test]
fn strips_trailing_slash() {
    assert_eq!(
        normalize_relay_url("http://127.0.0.1:8765/"),
        "http://127.0.0.1:8765"
    );
}

#[test]
fn strips_v1_incoming() {
    assert_eq!(
        normalize_relay_url("http://127.0.0.1:8765/v1/incoming"),
        "http://127.0.0.1:8765"
    );
}

#[test]
fn strips_v1_ping() {
    assert_eq!(
        normalize_relay_url("http://127.0.0.1:8765/v1/ping"),
        "http://127.0.0.1:8765"
    );
}

#[test]
fn strips_legacy_assistant_relay() {
    assert_eq!(
        normalize_relay_url("http://127.0.0.1:8765/api/v1/assistant-relay"),
        "http://127.0.0.1:8765"
    );
}

#[test]
fn strips_legacy_assistant_relay_tasks() {
    assert_eq!(
        normalize_relay_url("http://127.0.0.1:8765/api/v1/assistant-relay/tasks"),
        "http://127.0.0.1:8765"
    );
}

#[test]
fn strips_legacy_assistant_relay_ping() {
    assert_eq!(
        normalize_relay_url("http://127.0.0.1:8765/api/v1/assistant-relay/ping"),
        "http://127.0.0.1:8765"
    );
}

#[test]
fn strips_trailing_tasks() {
    assert_eq!(
        normalize_relay_url("http://127.0.0.1:8765/tasks"),
        "http://127.0.0.1:8765"
    );
}

#[test]
fn strips_trailing_incoming() {
    assert_eq!(
        normalize_relay_url("http://127.0.0.1:8765/incoming"),
        "http://127.0.0.1:8765"
    );
}

#[test]
fn strips_trailing_ping() {
    assert_eq!(
        normalize_relay_url("http://127.0.0.1:8765/ping"),
        "http://127.0.0.1:8765"
    );
}

#[test]
fn trims_whitespace() {
    assert_eq!(
        normalize_relay_url("  http://127.0.0.1:8765  "),
        "http://127.0.0.1:8765"
    );
}

#[test]
fn trims_whitespace_and_strips_path() {
    assert_eq!(
        normalize_relay_url("  http://127.0.0.1:8765/v1/incoming/  "),
        "http://127.0.0.1:8765"
    );
}

#[test]
fn blank_url_or_token_is_no_relay() {
    let s = RelaySettings {
        relay_url: "   ".to_string(),
        relay_token: "tok".to_string(),
        paired_verified: true,
    };
    assert!(!s.has_relay());
    assert!(!s.ready());
    assert!(!s.pairing_pending());
}

#[test]
fn only_the_first_matching_endpoint_path_is_removed() {
    assert_eq!(normalize_relay_url("http://h/tasks/ping"), "http://h/tasks");
    assert_eq!(normalize_relay_url("http://h//v1/ping//"), "http://h");
    assert_eq!(normalize_relay_url("http://h/other"), "http://h/other");
}

#[test]
fn an_update_is_kept_normalized_once_persisted() {
    let mut store = RelaySettingsStore::new(RelaySettings::default());
    let mut seen = Vec::new();
    let candidate = RelaySettings {
        relay_url: " http://127.0.0.1:8765/v1/incoming ".to_string(),
        relay_token: "tok".to_string(),
        paired_verified: false,
    };
    let saved = store
        .update(candidate, |s: &RelaySettings| {
            seen.push(s.relay_url.clone());
            Ok(())
        })
        .unwrap();
    assert_eq!(saved.relay_url, "http://127.0.0.1:8765");
    assert_eq!(seen, vec!["http://127.0.0.1:8765".to_string()]);
    assert_eq!(store.snapshot().relay_url, "http://127.0.0.1:8765");
    assert_eq!(store.snapshot().relay_token, "tok");
}

#[test]
fn a_failed_persist_leaves_the_settings_unchanged() {
    let mut store = RelaySettingsStore::new(RelaySettings::default());
    let candidate = RelaySettings {
        relay_url: "http://a".to_string(),
        relay_token: "t".to_string(),
        paired_verified: true,
    };
    let err = store
        .update(candidate, |_s: &RelaySettings| Err("disk full".to_string()))
        .unwrap_err();
    assert_eq!(err, "disk full");
    assert_eq!(store.snapshot().relay_url, "");
    assert!(!store.snapshot().paired_verified);
}

fn verified_store() -> RelaySettingsStore {
    RelaySettingsStore::new(RelaySettings {
        relay_url: "https://relay.example.com".to_string(),
        relay_token: "tok".to_string(),
        paired_verified: true,
    })
}

fn saved(_s: &RelaySettings) -> Result<(), String> {
    Ok(())
}

#[test]
fn saving_a_public_http_url_is_refused_and_changes_nothing() {
    let mut store = verified_store();
    let r = save_relay_settings(&mut store, Some("http://example.com:8765".to_string()), None, saved);
    assert_eq!(r.unwrap_err(), PLAIN_HTTP_REFUSED);
    assert!(store.snapshot().ready());
}

#[test]
fn saving_the_form_requires_the_pairing_to_be_verified_again() {
    let mut store = verified_store();
    let r = save_relay_settings(&mut store, None, Some("new-token".to_string()), saved).unwrap();
    assert_eq!(r.relay_url, "https://relay.example.com");
    assert_eq!(r.relay_token, "new-token");
    assert!(r.pairing_pending());
    assert!(!store.snapshot().ready());

    let r = save_relay_settings(&mut store, Some("   ".to_string()), None, saved).unwrap();
    assert_eq!(r.relay_url, "");
    assert!(!r.has_relay());
}

#[test]
fn a_failed_save_keeps_the_settings() {
    let mut store = verified_store();
    let r = save_relay_settings(
        &mut store,
        Some("https://other.example.com/v1/incoming".to_string()),
        None,
        |_s: &RelaySettings| Err("disk full".to_string()),
    );
    assert_eq!(r.unwrap_err(), "disk full");
    assert_eq!(store.snapshot().relay_url, "https://relay.example.com");
}

#[test]
fn pairing_takes_the_relay_with_its_url_normalized() {
    let mut store = verified_store();
    let relay = PairedRelay {
        url: "http://127.0.0.1:8765/v1/incoming".to_string(),
        token: "paired".to_string(),
        label: None,
    };
    let r = pair_with_relay(&mut store, relay, saved).unwrap();
    assert_eq!(r.relay_url, "http://127.0.0.1:8765");
    assert_eq!(r.relay_token, "paired");
    assert!(r.pairing_pending());
}
