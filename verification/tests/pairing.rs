use base64::Engine;
use stagewhisper::pairing::{
    check_paired_relay, decode_pairing_code, host_is_private, ip_is_private, relay_is_loopback,
    validate_relay_url, IpAddress, PairedRelay, PAIRING_CODE_PREFIX,
};

fn encode(json: &str) -> String {
    format!(
        "{PAIRING_CODE_PREFIX}{}",
        base64::engine::general_purpose::URL_SAFE_NO_PAD.encode(json.as_bytes())
    )
}

/// What the app does with a pairing code: decode it, read its JSON, check the relay.
fn parse_pairing_code(code: &str) -> Result<PairedRelay, String> {
    let bytes = decode_pairing_code(code)?;
    let value: serde_json::Value =
        serde_json::from_slice(&bytes).map_err(|_| "Pairing code is malformed.".to_string())?;
    let url = value.get("url").and_then(|v| v.as_str()).ok_or("Pairing code is malformed.")?;
    let token = value.get("token").and_then(|v| v.as_str()).ok_or("Pairing code is malformed.")?;
    let label = match value.get("label") {
        None | Some(serde_json::Value::Null) => None,
        Some(v) => Some(v.as_str().ok_or("Pairing code is malformed.")?.to_string()),
    };
    check_paired_relay(PairedRelay { url: url.to_string(), token: token.to_string(), label })
}

#[test]
fn parses_valid_code() {
    let code = encode(r#"{"url":"http://127.0.0.1:8765","token":"supersecrettoken","label":"OpenClaw"}"#);
    let relay = parse_pairing_code(&code).unwrap();
    assert_eq!(relay.url, "http://127.0.0.1:8765");
    assert_eq!(relay.token, "supersecrettoken");
    assert_eq!(relay.label.as_deref(), Some("OpenClaw"));
}

#[test]
fn parses_without_label() {
    let code = encode(r#"{"url":"http://127.0.0.1:8765","token":"t"}"#);
    let relay = parse_pairing_code(&code).unwrap();
    assert_eq!(relay.label, None);
}

#[test]
fn trims_surrounding_whitespace() {
    let code = encode(r#"{"url":" http://127.0.0.1:8765 ","token":" t ","label":"  "}"#);
    let padded = format!("  {code}\n");
    let relay = parse_pairing_code(&padded).unwrap();
    assert_eq!(relay.url, "http://127.0.0.1:8765");
    assert_eq!(relay.token, "t");
    assert_eq!(relay.label, None);
}

#[test]
fn rejects_wrong_prefix() {
    let err = parse_pairing_code("stagewhisper-pair:v2:abc").unwrap_err();
    assert!(err.contains("not a StageWhisper pairing code"));
}

#[test]
fn rejects_wrong_version() {
    let code = format!(
        "stagewhisper-pair:v2:{}",
        base64::engine::general_purpose::URL_SAFE_NO_PAD.encode(b"{}")
    );
    assert!(parse_pairing_code(&code).is_err());
}

#[test]
fn accepts_code_emitted_by_hermes_cli() {
    let code = "stagewhisper-pair:v1:eyJ1cmwiOiJodHRwOi8vMTI3LjAuMC4xOjg3NjUiLCJ0b2tlbiI6InNla3JldHRva2VuMTIzIiwibGFiZWwiOiJIZXJtZXMifQ";
    let relay = parse_pairing_code(code).unwrap();
    assert_eq!(relay.url, "http://127.0.0.1:8765");
    assert_eq!(relay.token, "sekrettoken123");
    assert_eq!(relay.label.as_deref(), Some("Hermes"));
}

#[test]
fn rejects_bad_base64() {
    assert!(parse_pairing_code(&format!("{PAIRING_CODE_PREFIX}!!!not-base64!!!")).is_err());
}

#[test]
fn rejects_bad_json() {
    assert!(parse_pairing_code(&encode("not json")).is_err());
}

#[test]
fn rejects_empty_token() {
    let err = parse_pairing_code(&encode(r#"{"url":"http://127.0.0.1:8765","token":"  "}"#)).unwrap_err();
    assert_eq!(err, "Pairing code is missing the relay token.");
}

#[test]
fn rejects_http_public_domain() {
    let err = parse_pairing_code(&encode(r#"{"url":"http://example.com","token":"t"}"#)).unwrap_err();
    assert!(err.contains("Plain http"));
}

#[test]
fn rejects_http_public_ip() {
    assert!(parse_pairing_code(&encode(r#"{"url":"http://8.8.8.8:80","token":"t"}"#)).is_err());
}

#[test]
fn accepts_https_public_domain() {
    assert!(parse_pairing_code(&encode(r#"{"url":"https://relay.example.com","token":"t"}"#)).is_ok());
}

#[test]
fn rejects_non_http_scheme() {
    assert!(parse_pairing_code(&encode(r#"{"url":"ftp://127.0.0.1","token":"t"}"#)).is_err());
}

#[test]
fn accepts_http_loopback() {
    assert!(validate_relay_url("http://127.0.0.1:8765").is_ok());
    assert!(validate_relay_url("http://localhost:8765").is_ok());
    assert!(validate_relay_url("http://[::1]:8765").is_ok());
}

#[test]
fn accepts_http_private_ranges() {
    assert!(validate_relay_url("http://192.168.1.20:8765").is_ok());
    assert!(validate_relay_url("http://10.0.0.5:8765").is_ok());
    assert!(validate_relay_url("http://172.16.0.9:8765").is_ok());
}

#[test]
fn accepts_http_tailscale_addresses() {
    assert!(validate_relay_url("http://100.101.102.103:8765").is_ok());
    assert!(validate_relay_url("http://my-host.tailnet-name.ts.net:8765").is_ok());
}

#[test]
fn rejects_http_cgnat_lookalike_outside_range() {
    assert!(validate_relay_url("http://100.20.30.40:8765").is_err());
    assert!(validate_relay_url("http://100.128.0.1:8765").is_err());
}

#[test]
fn accepts_http_single_label_and_local_suffixes() {
    assert!(validate_relay_url("http://hermes-box:8765").is_ok());
    assert!(validate_relay_url("http://studio.local:8765").is_ok());
    assert!(validate_relay_url("http://relay.internal:8765").is_ok());
}

#[test]
fn rejects_non_http_schemes() {
    assert!(validate_relay_url("ftp://127.0.0.1:8765").is_err());
    assert!(validate_relay_url("ws://127.0.0.1:8765").is_err());
}

#[test]
fn relay_is_loopback_detects_local_assistants() {
    assert!(relay_is_loopback("http://127.0.0.1:8765"));
    assert!(relay_is_loopback("http://localhost:8765"));
    assert!(relay_is_loopback("http://[::1]:8765"));
}

#[test]
fn relay_is_loopback_rejects_remote_assistants() {
    assert!(!relay_is_loopback("https://host.tail34b074.ts.net"));
    assert!(!relay_is_loopback("http://192.168.1.5:8765"));
    assert!(!relay_is_loopback("not a url"));
}

#[test]
fn private_addresses_are_classified_by_range() {
    assert!(ip_is_private(IpAddress::V4([172, 31, 0, 1])));
    assert!(!ip_is_private(IpAddress::V4([172, 32, 0, 1])));
    assert!(ip_is_private(IpAddress::V4([169, 254, 1, 1])));
    assert!(ip_is_private(IpAddress::V4([100, 127, 255, 255])));
    assert!(ip_is_private(IpAddress::V6([0xfd00, 0, 0, 0, 0, 0, 0, 1])));
    assert!(ip_is_private(IpAddress::V6([0xfe80, 0, 0, 0, 0, 0, 0, 1])));
    assert!(!ip_is_private(IpAddress::V6([0x2001, 0xdb8, 0, 0, 0, 0, 0, 1])));
    assert!(host_is_private("LOCALHOST."));
    assert!(host_is_private("[::1]"));
    assert!(!host_is_private("example.com"));
}

#[test]
fn an_unparsable_url_is_invalid() {
    assert_eq!(validate_relay_url("not a url").unwrap_err(), "The relay URL is invalid.");
    assert_eq!(
        validate_relay_url("ws://127.0.0.1").unwrap_err(),
        "The relay URL must start with http or https."
    );
}
