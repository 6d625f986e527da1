use stagewhisper::relay_probe::{
    confirm_device_approved, pairing_probe_result, probe_error_message, probe_indicates_reachable,
    probe_precheck, probe_wait_result, ProbeWait, PROBE_DROPPED_MESSAGE, PROBE_TIMEOUT_MESSAGE,
    RELAY_NOT_CONFIGURED, UNREACHABLE_MESSAGE,
};
use stagewhisper::relay_settings::{RelaySettings, RelaySettingsStore};
use stagewhisper::reply_router::probe::{ProbeOutcome, ProbeRegistry};

fn outcome(status: &str, reply: Option<&str>, error: Option<&str>) -> ProbeOutcome {
    ProbeOutcome {
        status: status.to_string(),
        reply_text: reply.map(str::to_string),
        error_message: error.map(str::to_string),
    }
}

#[test]
fn completed_and_message_replies_show_the_assistant_reachable() {
    assert!(probe_indicates_reachable("completed"));
    assert!(probe_indicates_reachable("message"));
    assert!(!probe_indicates_reachable("errored"));
    let r = pairing_probe_result(outcome("message", Some("ok"), None)).unwrap();
    assert!(r.reachable);
    assert_eq!(r.reply.as_deref(), Some("ok"));
}

#[test]
fn an_unreachable_probe_reports_its_error_or_a_general_one() {
    assert_eq!(probe_error_message(&outcome("errored", None, Some("denied"))), "denied");
    assert_eq!(probe_error_message(&outcome("errored", None, None)), UNREACHABLE_MESSAGE);
    assert_eq!(pairing_probe_result(outcome("errored", None, Some("denied"))).unwrap_err(), "denied");
}

#[test]
fn a_probe_that_never_gets_a_reply_times_out_with_a_user_facing_message() {
    let (r, cancel) = probe_wait_result(ProbeWait::TimedOut);
    assert_eq!(r.unwrap_err(), PROBE_TIMEOUT_MESSAGE);
    assert!(cancel);
    let (r, cancel) = probe_wait_result(ProbeWait::Dropped);
    assert_eq!(r.unwrap_err(), PROBE_DROPPED_MESSAGE);
    assert!(!cancel);
    let (r, cancel) = probe_wait_result(ProbeWait::Answered(outcome("completed", Some("ok"), None)));
    assert_eq!(r.unwrap().status, "completed");
    assert!(!cancel);
}

#[test]
fn probe_tests_probe_registry_register_and_take_round_trip() {
    let mut registry: ProbeRegistry<u32> = ProbeRegistry::new();
    registry.register("task".to_string(), 7);
    assert_eq!(registry.take("task"), Some(7));
    assert_eq!(registry.take("task"), None);
}

#[test]
fn a_cancelled_probe_is_not_delivered_and_a_new_registration_replaces_the_old() {
    let mut registry: ProbeRegistry<&str> = ProbeRegistry::new();
    registry.register("t".to_string(), "first");
    registry.register("t".to_string(), "second");
    assert_eq!(registry.take("t"), Some("second"));
    registry.register("u".to_string(), "x");
    registry.cancel("u");
    assert_eq!(registry.take("u"), None);
}

fn pending_relay() -> RelaySettings {
    RelaySettings {
        relay_url: "http://127.0.0.1:8765".to_string(),
        relay_token: "tok".to_string(),
        paired_verified: false,
    }
}

#[test]
fn a_probe_needs_a_configured_relay() {
    assert_eq!(probe_precheck(&RelaySettings::default()), Err(RELAY_NOT_CONFIGURED.to_string()));
    assert_eq!(probe_precheck(&pending_relay()), Ok(()));
}

#[test]
fn a_device_is_approved_only_on_a_reachable_reply() {
    let mut store = RelaySettingsStore::new(pending_relay());
    let r = confirm_device_approved(&mut store, outcome("errored", None, Some("nope")), |_s: &RelaySettings| Ok(()));
    assert_eq!(r.unwrap_err(), "nope");
    assert!(store.snapshot().pairing_pending());

    let r = confirm_device_approved(&mut store, outcome("completed", Some("ok"), None), |_s: &RelaySettings| Ok(()));
    assert!(r.unwrap().ready());
    assert!(store.snapshot().ready());
}
