use stagewhisper::relay::{build_url, incoming_result, relay_is_busy, session_chat_body, RelayError};

#[test]
fn endpoints_are_joined_to_the_base_without_doubled_slashes() {
    assert_eq!(build_url("http://127.0.0.1:8765/", "/v1/incoming").unwrap(), "http://127.0.0.1:8765/v1/incoming");
    assert_eq!(build_url("https://relay.example", "v1/ping").unwrap(), "https://relay.example/v1/ping");
}

#[test]
fn a_bad_base_is_an_invalid_url() {
    assert_eq!(build_url("", "/v1/incoming"), Err(RelayError::InvalidUrl(String::new())));
    assert_eq!(build_url("///", "/x"), Err(RelayError::InvalidUrl("///".to_string())));
    assert_eq!(build_url("ftp://h", "/x"), Err(RelayError::InvalidUrl("ftp://h".to_string())));
    assert_eq!(build_url("not a url", "/x"), Err(RelayError::InvalidUrl("not a url".to_string())));
}

#[test]
fn an_outbound_chat_message_never_carries_a_callback_block() {
    let body = session_chat_body("t-1", "s-1", "hello", Some("u-1"), "2024-01-01T00:00:00+00:00");
    let v: serde_json::Value = serde_json::from_str(&body).unwrap();
    assert_eq!(v["reason"], "chat_message");
    assert_eq!(v["task_id"], "t-1");
    assert_eq!(v["session_id"], "s-1");
    assert_eq!(v["payload"]["text"], "hello");
    assert_eq!(v["payload"]["user_message_id"], "u-1");
    assert_eq!(v["payload"]["parent_message_id"], "u-1");
    assert!(v.get("callback").is_none());
    assert!(v["payload"].get("callback").is_none());
}

#[test]
fn an_outbound_probe_style_chat_message_also_carries_no_callback_block() {
    let body = session_chat_body("t", "s", "say \"ok\"", None, "now");
    let v: serde_json::Value = serde_json::from_str(&body).unwrap();
    assert_eq!(v["payload"]["text"], "say \"ok\"");
    assert!(v["payload"].get("user_message_id").is_none());
    assert!(v.get("callback").is_none());
    assert_eq!(
        body,
        r#"{"occurred_at":"now","payload":{"text":"say \"ok\""},"reason":"chat_message","session_id":"s","task_id":"t"}"#
    );
}

#[test]
fn relay_answers_are_read_by_status() {
    assert_eq!(incoming_result(202, String::new()), Ok(()));
    assert_eq!(incoming_result(200, String::new()), Ok(()));
    assert_eq!(incoming_result(503, "busy".to_string()), Err(RelayError::Status(429, "busy".to_string())));
    assert_eq!(incoming_result(429, "slow".to_string()), Err(RelayError::Status(429, "slow".to_string())));
    assert_eq!(incoming_result(401, "no".to_string()), Err(RelayError::Status(401, "no".to_string())));
    assert!(relay_is_busy(503));
    assert!(!relay_is_busy(500));
}
