//! Pairing with an assistant relay: reading a pairing code, and deciding which relay URLs the
//! app may talk to over plain http.
use base64::Engine;
use vstd::prelude::*;

use crate::text::{
    ascii_lower, chars_of, ends_with, has_prefix, has_suffix, is_blank, string_of, trim,
    trim_end_char, trim_end_matches, trim_start_char, trim_start_matches, trimmed, to_ascii_lowercase,
    contains_char,
};
use crate::keyed::str_eq;

verus! {

pub const PAIRING_CODE_PREFIX: &'static str = "stagewhisper-pair:v1:";

pub const NOT_A_PAIRING_CODE: &'static str = "This is not a StageWhisper pairing code.";

pub const MALFORMED_CODE: &'static str = "Pairing code is malformed.";

pub const INVALID_RELAY_URL: &'static str = "The relay URL is invalid.";

pub const PLAIN_HTTP_REFUSED: &'static str = "Plain http is only allowed for local and private-network addresses. Use https for hosts on the public internet, or point at your Tailscale address.";

pub const UNSUPPORTED_SCHEME: &'static str = "The relay URL must start with http or https.";

pub const MISSING_TOKEN: &'static str = "Pairing code is missing the relay token.";

/// A relay as a pairing code describes it.
#[derive(Debug, Clone)]
pub struct PairedRelay {
    pub url: String,
    pub token: String,
    pub label: Option<String>,
}

/// An IP address: four octets, or eight 16-bit segments.
#[derive(Debug, Clone, Copy, PartialEq, Eq)]
pub enum IpAddress {
    V4([u8; 4]),
    V6([u16; 8]),
}

/// The address that `s` reads as (`str::parse::<IpAddr>`), if it is one.
pub uninterp spec fn parsed_ip(s: Seq<char>) -> Option<IpAddress>;

/// `s.parse::<core::net::IpAddr>()`, its octets or segments taken out.
#[verifier::external_body]
fn parse_ip(s: &str) -> (r: Option<IpAddress>)
    ensures
        r == parsed_ip(s@),
{
    match s.parse::<core::net::IpAddr>() {
        Ok(core::net::IpAddr::V4(a)) => Some(IpAddress::V4(a.octets())),
        Ok(core::net::IpAddr::V6(a)) => Some(IpAddress::V6(a.segments())),
        Err(_) => None,
    }
}

/// The scheme and host (`Url::scheme`, `Url::host_str`) that `reqwest::Url::parse` reads in
/// `s`, if it parses.
pub uninterp spec fn url_scheme_host(s: Seq<char>) -> Option<(Seq<char>, Option<Seq<char>>)>;

/// `reqwest::Url::parse(s)`, then its scheme and host.
#[verifier::external_body]
pub(crate) fn parse_url(s: &str) -> (r: Option<(String, Option<String>)>)
    ensures
        match url_scheme_host(s@) {
            Some((scheme, host)) => (r matches Some((sc, h)) && sc@ == scheme && match h {
                Some(x) => host == Some(x@),
                None => host is None,
            }),
            None => r is None,
        },
{
    match reqwest::Url::parse(s) {
        Ok(u) => Some((u.scheme().to_owned(), u.host_str().map(str::to_owned))),
        Err(_) => None,
    }
}

/// The bytes of `s` in unpadded URL-safe base64, if it is that.
pub uninterp spec fn base64_url_decoded(s: Seq<char>) -> Option<Seq<u8>>;

/// `base64::engine::general_purpose::URL_SAFE_NO_PAD.decode(s)`.
#[verifier::external_body]
fn decode_base64_url(s: &str) -> (r: Option<Vec<u8>>)
    ensures
        match base64_url_decoded(s@) {
            Some(b) => (r matches Some(v) && v@ == b),
            None => r is None,
        },
{
    base64::engine::general_purpose::URL_SAFE_NO_PAD.decode(s).ok()
}

/// Loopback, private (RFC 1918), link-local and carrier-grade NAT (100.64.0.0/10, where
/// Tailscale lives) IPv4 addresses; loopback, unique-local and link-local IPv6 ones.
pub open spec fn ip_private(ip: IpAddress) -> bool {
    match ip {
        IpAddress::V4(o) => {
            ||| o[0] == 127
            ||| o[0] == 10
            ||| (o[0] == 172 && 16 <= o[1] && o[1] <= 31)
            ||| (o[0] == 192 && o[1] == 168)
            ||| (o[0] == 169 && o[1] == 254)
            ||| (o[0] == 100 && (o[1] & 0xc0u8) == 64u8)
        },
        IpAddress::V6(s) => {
            ||| ip_loopback(ip)
            ||| (s[0] & 0xfe00u16) == 0xfc00u16
            ||| (s[0] & 0xffc0u16) == 0xfe80u16
        },
    }
}

pub open spec fn ip_loopback(ip: IpAddress) -> bool {
    match ip {
        IpAddress::V4(o) => o[0] == 127,
        IpAddress::V6(s) => s[0] == 0 && s[1] == 0 && s[2] == 0 && s[3] == 0 && s[4] == 0 && s[5]
            == 0 && s[6] == 0 && s[7] == 1,
    }
}

pub fn ip_is_private(ip: IpAddress) -> (r: bool)
    ensures
        r == ip_private(ip),
{
    match ip {
        IpAddress::V4(o) => o[0] == 127 || o[0] == 10 || (o[0] == 172 && 16 <= o[1] && o[1] <= 31)
            || (o[0] == 192 && o[1] == 168) || (o[0] == 169 && o[1] == 254) || (o[0] == 100 && (
        o[1] & 0xc0u8) == 64u8),
        IpAddress::V6(s) => ip_is_loopback(ip) || (s[0] & 0xfe00u16) == 0xfc00u16 || (s[0]
            & 0xffc0u16) == 0xfe80u16,
    }
}

pub fn ip_is_loopback(ip: IpAddress) -> (r: bool)
    ensures
        r == ip_loopback(ip),
{
    match ip {
        IpAddress::V4(o) => o[0] == 127,
        IpAddress::V6(s) => s[0] == 0 && s[1] == 0 && s[2] == 0 && s[3] == 0 && s[4] == 0 && s[5]
            == 0 && s[6] == 0 && s[7] == 1,
    }
}

/// A URL host as compared: without trailing dots, without the brackets of an IPv6 literal,
/// in lower case.
pub open spec fn normalized_host(host: Seq<char>) -> Seq<char> {
    ascii_lower(trim_end_char(trim_start_char(trim_end_char(host, '.'), '['), ']'))
}

pub fn normalize_host(host: &str) -> (r: String)
    ensures
        r@ == normalized_host(host@),
{
    let a = trim_end_matches(host, '.');
    let b = trim_start_matches(a.as_str(), '[');
    let c = trim_end_matches(b.as_str(), ']');
    to_ascii_lowercase(c.as_str())
}

/// Host names that stay on the machine or the local network: `localhost` and its
/// subdomains, single-label names, and `.local`, `.internal` and Tailscale (`.ts.net`) names.
pub open spec fn local_name(n: Seq<char>) -> bool {
    ||| n == "localhost"@
    ||| has_suffix(n, ".localhost"@)
    ||| !n.contains('.')
    ||| has_suffix(n, ".local"@)
    ||| has_suffix(n, ".internal"@)
    ||| has_suffix(n, ".ts.net"@)
}

/// A host on the machine or a private network.
pub open spec fn private_host(host: Seq<char>) -> bool {
    let n = normalized_host(host);
    match parsed_ip(n) {
        Some(ip) => ip_private(ip),
        None => local_name(n),
    }
}

fn suffix_is(v: &Vec<char>, s: &str) -> (r: bool)
    ensures
        r == has_suffix(v@, s@),
{
    ends_with(v, &chars_of(s))
}

/// Whether a URL host is on the machine or a private network.
pub fn host_is_private(host: &str) -> (r: bool)
    ensures
        r == private_host(host@),
{
    let n = normalize_host(host);
    match parse_ip(n.as_str()) {
        Some(ip) => ip_is_private(ip),
        None => {
            let v = chars_of(n.as_str());
            str_eq(n.as_str(), "localhost") || suffix_is(&v, ".localhost") || !contains_char(&v, '.')
                || suffix_is(&v, ".local") || suffix_is(&v, ".internal") || suffix_is(&v, ".ts.net")
        },
    }
}

/// Why a relay URL is refused, if it is: it must parse; https is always allowed, plain http
/// only to a private host; no other scheme.
pub open spec fn relay_url_error(raw: Seq<char>) -> Option<Seq<char>> {
    match url_scheme_host(trimmed(raw)) {
        None => Some(INVALID_RELAY_URL@),
        Some((scheme, host)) => if scheme == "https"@ {
            None
        } else if scheme == "http"@ {
            match host {
                None => Some(INVALID_RELAY_URL@),
                Some(h) => if private_host(h) {
                    None
                } else {
                    Some(PLAIN_HTTP_REFUSED@)
                },
            }
        } else {
            Some(UNSUPPORTED_SCHEME@)
        },
    }
}

pub fn validate_relay_url(raw: &str) -> (r: Result<(), String>)
    ensures
        match relay_url_error(raw@) {
            None => r is Ok,
            Some(m) => (r matches Err(e) && e@ == m),
        },
{
    let t = trim(raw);
    match parse_url(t.as_str()) {
        None => Err(INVALID_RELAY_URL.to_owned()),
        Some((scheme, host)) => {
            if str_eq(scheme.as_str(), "https") {
                Ok(())
            } else if str_eq(scheme.as_str(), "http") {
                match host {
                    None => Err(INVALID_RELAY_URL.to_owned()),
                    Some(h) => if host_is_private(h.as_str()) {
                        Ok(())
                    } else {
                        Err(PLAIN_HTTP_REFUSED.to_owned())
                    },
                }
            } else {
                Err(UNSUPPORTED_SCHEME.to_owned())
            }
        },
    }
}

/// A relay on this machine: its URL parses and its host is a loopback address or
/// `localhost` (or a subdomain of it).
pub open spec fn loopback_relay(raw: Seq<char>) -> bool {
    match url_scheme_host(trimmed(raw)) {
        Some((_, Some(h))) => {
            let n = normalized_host(h);
            match parsed_ip(n) {
                Some(ip) => ip_loopback(ip),
                None => n == "localhost"@ || has_suffix(n, ".localhost"@),
            }
        },
        _ => false,
    }
}

pub fn relay_is_loopback(raw: &str) -> (r: bool)
    ensures
        r == loopback_relay(raw@),
{
    let t = trim(raw);
    match parse_url(t.as_str()) {
        Some((_, Some(h))) => {
            let n = normalize_host(h.as_str());
            match parse_ip(n.as_str()) {
                Some(ip) => ip_is_loopback(ip),
                None => {
                    let v = chars_of(n.as_str());
                    str_eq(n.as_str(), "localhost") || suffix_is(&v, ".localhost")
                },
            }
        },
        _ => false,
    }
}

/// What a pairing code carries: after the prefix (the code trimmed), the base64 text
/// (trimmed) decoded.
pub open spec fn pairing_payload(code: Seq<char>) -> Result<Seq<u8>, Seq<char>> {
    let t = trimmed(code);
    if !has_prefix(t, PAIRING_CODE_PREFIX@) {
        Err(NOT_A_PAIRING_CODE@)
    } else {
        match base64_url_decoded(trimmed(t.skip(PAIRING_CODE_PREFIX@.len() as int))) {
            Some(b) => Ok(b),
            None => Err(MALFORMED_CODE@),
        }
    }
}

/// The JSON bytes a pairing code carries.
pub fn decode_pairing_code(code: &str) -> (r: Result<Vec<u8>, String>)
    ensures
        match pairing_payload(code@) {
            Ok(b) => (r matches Ok(v) && v@ == b),
            Err(m) => (r matches Err(e) && e@ == m),
        },
{
    let t = chars_of(trim(code).as_str());
    let prefix = chars_of(PAIRING_CODE_PREFIX);
    if !crate::text::starts_with(&t, &prefix) {
        return Err(NOT_A_PAIRING_CODE.to_owned());
    }
    let rest = string_of(&t, prefix.len(), t.len());
    assert(rest@ =~= t@.skip(PAIRING_CODE_PREFIX@.len() as int));
    let payload = trim(rest.as_str());
    match decode_base64_url(payload.as_str()) {
        Some(b) => Ok(b),
        None => Err(MALFORMED_CODE.to_owned()),
    }
}

/// The label kept from a pairing code: trimmed, and none when blank.
pub open spec fn kept_label(label: Option<Seq<char>>) -> Option<Seq<char>> {
    match label {
        Some(l) => if trimmed(l).len() == 0 {
            None
        } else {
            Some(trimmed(l))
        },
        None => None,
    }
}

pub open spec fn opt_seq(o: Option<String>) -> Option<Seq<char>> {
    match o {
        Some(s) => Some(s@),
        None => None,
    }
}

/// Checks the relay that a pairing code described: its URL (trimmed) must be allowed and its
/// token not blank; the relay is returned trimmed.
pub fn check_paired_relay(relay: PairedRelay) -> (r: Result<PairedRelay, String>)
    ensures
        relay_url_error(trimmed(relay.url@)) matches Some(m) ==> (r matches Err(e) && e@ == m),
        relay_url_error(trimmed(relay.url@)) is None && trimmed(relay.token@).len() == 0 ==> (r matches Err(e)
            && e@ == MISSING_TOKEN@),
        relay_url_error(trimmed(relay.url@)) is None && trimmed(relay.token@).len() != 0 ==> (r matches Ok(p)
            && p.url@ == trimmed(relay.url@) && p.token@ == trimmed(relay.token@) && opt_seq(p.label)
            == kept_label(opt_seq(relay.label))),
{
    let url = trim(relay.url.as_str());
    match validate_relay_url(url.as_str()) {
        Err(e) => {
            return Err(e);
        },
        Ok(()) => {},
    }
    if is_blank(relay.token.as_str()) {
        return Err(MISSING_TOKEN.to_owned());
    }
    let label = match &relay.label {
        Some(l) => if is_blank(l.as_str()) {
            None
        } else {
            Some(trim(l.as_str()))
        },
        None => None,
    };
    Ok(PairedRelay { url, token: trim(relay.token.as_str()), label })
}

} // verus!
