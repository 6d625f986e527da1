//! The assistant relay the app talks to, and its pairing state.
use vstd::prelude::*;

use crate::pairing::{relay_url_error, validate_relay_url, PairedRelay};
use crate::text::{
    chars_of, ends_with, has_suffix, is_blank, string_of, trim, trim_end_char, trim_end_char_len,
    trimmed,
};

verus! {

/// The relay settings as stored.
#[derive(Clone, Debug)]
pub struct RelaySettings {
    pub relay_url: String,
    pub relay_token: String,
    pub paired_verified: bool,
}

pub struct RelaySettingsView {
    pub relay_url: Seq<char>,
    pub relay_token: Seq<char>,
    pub paired_verified: bool,
}

impl View for RelaySettings {
    type V = RelaySettingsView;

    open spec fn view(&self) -> RelaySettingsView {
        RelaySettingsView {
            relay_url: self.relay_url@,
            relay_token: self.relay_token@,
            paired_verified: self.paired_verified,
        }
    }
}

/// A relay URL and token are both given (not blank).
pub open spec fn configured(s: RelaySettingsView) -> bool {
    trimmed(s.relay_url).len() != 0 && trimmed(s.relay_token).len() != 0
}

impl RelaySettings {
    /// A relay is configured: URL and token are both non-blank.
    pub fn has_relay(&self) -> (r: bool)
        ensures
            r == configured(self@),
            r == (trimmed(self.relay_url@).len() != 0 && trimmed(self.relay_token@).len() != 0),
    {
        !is_blank(self.relay_url.as_str()) && !is_blank(self.relay_token.as_str())
    }

    /// A relay is configured but its pairing has not been verified yet.
    pub fn pairing_pending(&self) -> (r: bool)
        ensures
            r == (configured(self@) && !self.paired_verified),
            r == (trimmed(self.relay_url@).len() != 0 && trimmed(self.relay_token@).len() != 0
                && !self.paired_verified),
    {
        self.has_relay() && !self.paired_verified
    }

    /// A relay is configured and its pairing verified: replies can be recorded.
    pub fn ready(&self) -> (r: bool)
        ensures
            r == (configured(self@) && self.paired_verified),
            r == (trimmed(self.relay_url@).len() != 0 && trimmed(self.relay_token@).len() != 0
                && self.paired_verified),
    {
        self.has_relay() && self.paired_verified
    }

    /// A copy with the same contents.
    pub fn duplicate(&self) -> (r: RelaySettings)
        ensures
            r@ == self@,
    {
        RelaySettings {
            relay_url: self.relay_url.clone(),
            relay_token: self.relay_token.clone(),
            paired_verified: self.paired_verified,
        }
    }
}

impl Default for RelaySettings {
    fn default() -> (s: RelaySettings)
        ensures
            s@.relay_url == Seq::<char>::empty(),
            s@.relay_token == Seq::<char>::empty(),
            !s.paired_verified,
    {
        RelaySettings { relay_url: String::new(), relay_token: String::new(), paired_verified: false }
    }
}

/// A relay counts as configured exactly when both its URL and its token are non-blank: a URL
/// without a token (or a token without a URL) is no relay, and is neither pending nor ready.
pub proof fn law_configured_needs_url_and_token(s: RelaySettingsView)
    ensures
        configured(s) <==> (trimmed(s.relay_url).len() != 0 && trimmed(s.relay_token).len() != 0),
        trimmed(s.relay_token).len() == 0 ==> !configured(s),
        trimmed(s.relay_url).len() == 0 ==> !configured(s),
{
}

/// A configured relay is either pending its pairing or ready, never both; an unconfigured one
/// is neither.
pub proof fn law_pending_and_ready_split_configured(s: RelaySettingsView)
    ensures
        (configured(s) && !s.paired_verified) || (configured(s) && s.paired_verified) <==> configured(
            s,
        ),
        !((configured(s) && !s.paired_verified) && (configured(s) && s.paired_verified)),
{
}

/// The endpoint paths that a pasted relay URL may end with, most specific first.
pub open spec fn relay_suffixes() -> Seq<Seq<char>> {
    seq![
        "/v1/incoming"@,
        "/v1/ping"@,
        "/api/v1/assistant-relay/tasks"@,
        "/api/v1/assistant-relay/ping"@,
        "/api/v1/assistant-relay"@,
        "/tasks"@,
        "/incoming"@,
        "/ping"@,
    ]
}

fn relay_suffix(i: usize) -> (s: &'static str)
    requires
        i < 8,
    ensures
        s@ == relay_suffixes()[i as int],
{
    match i {
        0 => "/v1/incoming",
        1 => "/v1/ping",
        2 => "/api/v1/assistant-relay/tasks",
        3 => "/api/v1/assistant-relay/ping",
        4 => "/api/v1/assistant-relay",
        5 => "/tasks",
        6 => "/incoming",
        _ => "/ping",
    }
}

/// `t` with the first of `sufs` that ends it removed, then its trailing slashes; `t` itself
/// when none does.
pub open spec fn strip_first_suffix(t: Seq<char>, sufs: Seq<Seq<char>>) -> Seq<char>
    decreases sufs.len(),
{
    if sufs.len() == 0 {
        t
    } else if has_suffix(t, sufs[0]) {
        trim_end_char(t.subrange(0, t.len() - sufs[0].len()), '/')
    } else {
        strip_first_suffix(t, sufs.drop_first())
    }
}

/// The base URL of a relay: the input trimmed, without trailing slashes, without the first
/// endpoint path it ends with, and again without trailing slashes.
pub open spec fn normalized_relay_url(url: Seq<char>) -> Seq<char> {
    strip_first_suffix(trim_end_char(trimmed(url), '/'), relay_suffixes())
}

/// The base URL of a relay, from whatever endpoint URL was pasted.
pub fn normalize_relay_url(url: &str) -> (r: String)
    ensures
        r@ == normalized_relay_url(url@),
{
    let trimmed_url = trim(url);
    let v = chars_of(trimmed_url.as_str());
    let hi = trim_end_char_len(&v, v.len(), '/');
    let base = string_of(&v, 0, hi);
    assert(v@.subrange(0, v@.len() as int) =~= v@);
    let t = chars_of(base.as_str());
    let ghost sufs = relay_suffixes();
    assert(sufs.skip(0) =~= sufs);
    let mut i: usize = 0;
    while i < 8
        invariant
            i <= 8,
            sufs == relay_suffixes(),
            t@ == trim_end_char(trimmed(url@), '/'),
            strip_first_suffix(t@, sufs) == strip_first_suffix(t@, sufs.skip(i as int)),
        decreases 8 - i,
    {
        let suffix = chars_of(relay_suffix(i));
        assert(sufs.skip(i as int)[0] == sufs[i as int]);
        assert(sufs.skip(i as int).drop_first() =~= sufs.skip(i + 1));
        if ends_with(&t, &suffix) {
            let end = trim_end_char_len(&t, t.len() - suffix.len(), '/');
            return string_of(&t, 0, end);
        }
        i += 1;
    }
    assert(sufs.skip(8) =~= Seq::<Seq<char>>::empty());
    assert(t@.subrange(0, t@.len() as int) =~= t@);
    string_of(&t, 0, t.len())
}

/// Settings with their relay URL normalized.
pub open spec fn with_normalized_url(s: RelaySettingsView) -> RelaySettingsView {
    RelaySettingsView { relay_url: normalized_relay_url(s.relay_url), ..s }
}

/// `r` is what the store reports after handing settings that read as `written` to `persist`:
/// success exactly when that write succeeded, else the write's error.
pub open spec fn persisted_as<F: FnOnce(&RelaySettings) -> Result<(), String>>(
    persist: F,
    written: RelaySettingsView,
    r: Result<RelaySettings, String>,
) -> bool {
    exists|s: &RelaySettings, out: Result<(), String>|
        s@ == written && #[trigger] call_ensures(persist, (s,), out) && match r {
            Ok(_) => out is Ok,
            Err(e) => out == Err::<(), String>(e),
        }
}

/// The relay settings the app runs with.
pub struct RelaySettingsStore {
    current: RelaySettings,
}

impl View for RelaySettingsStore {
    type V = RelaySettingsView;

    closed spec fn view(&self) -> RelaySettingsView {
        self.current@
    }
}

impl RelaySettingsStore {
    /// A store holding `initial` (what was read from disk, or the defaults).
    pub fn new(initial: RelaySettings) -> (s: RelaySettingsStore)
        ensures
            s@ == initial@,
    {
        RelaySettingsStore { current: initial }
    }

    /// A copy of the current settings.
    pub fn snapshot(&self) -> (s: RelaySettings)
        ensures
            s@ == self@,
    {
        self.current.duplicate()
    }

    /// Replaces the settings with `candidate`, its relay URL normalized, once `persist` has
    /// written that normalized candidate; if `persist` fails, the settings stay as they were and
    /// its error is returned.
    pub fn update<F>(&mut self, candidate: RelaySettings, persist: F) -> (r: Result<
        RelaySettings,
        String,
    >) where F: FnOnce(&RelaySettings) -> Result<(), String>
        requires
            forall|s: &RelaySettings| call_requires(persist, (s,)),
        ensures
            persisted_as(persist, with_normalized_url(candidate@), r),
            r is Ok ==> final(self)@ == with_normalized_url(candidate@),
            r is Ok ==> r->Ok_0@ == final(self)@,
            r is Err ==> final(self)@ == old(self)@,
    {
        let normalized = RelaySettings {
            relay_url: normalize_relay_url(candidate.relay_url.as_str()),
            relay_token: candidate.relay_token,
            paired_verified: candidate.paired_verified,
        };
        let written = persist(&normalized);
        let ghost w = &normalized;
        let ghost wr = written;
        assert(call_ensures(persist, (w,), wr));
        match written {
            Ok(()) => {
                let out = normalized.duplicate();
                assert(wr is Ok);
                self.current = normalized;
                Ok(out)
            },
            Err(e) => {
                assert(wr == Err::<(), String>(e));
                Err(e)
            },
        }
    }
}

/// Why a relay URL given in the settings form is refused: a blank or absent URL is not
/// checked; another must pass [`validate_relay_url`].
pub open spec fn url_refusal(relay_url: Option<Seq<char>>) -> Option<Seq<char>> {
    match relay_url {
        Some(u) => if trimmed(u).len() == 0 {
            None
        } else {
            relay_url_error(u)
        },
        None => None,
    }
}

/// The settings the form asks for: the given URL and token in place of the current ones, and
/// the pairing to be verified again.
pub open spec fn form_candidate(
    current: RelaySettingsView,
    relay_url: Option<Seq<char>>,
    relay_token: Option<Seq<char>>,
) -> RelaySettingsView {
    RelaySettingsView {
        relay_url: match relay_url {
            Some(u) => u,
            None => current.relay_url,
        },
        relay_token: match relay_token {
            Some(t) => t,
            None => current.relay_token,
        },
        paired_verified: false,
    }
}

pub open spec fn opt_seq(o: Option<String>) -> Option<Seq<char>> {
    match o {
        Some(s) => Some(s@),
        None => None,
    }
}

/// Saves the relay settings form: a URL that is given and not blank must be acceptable (else
/// its refusal is returned and nothing changes); then the given URL and token replace the
/// current ones, the pairing is marked unverified, and the result is stored as
/// [`RelaySettingsStore::update`] does.
pub fn save_relay_settings<F>(
    store: &mut RelaySettingsStore,
    relay_url: Option<String>,
    relay_token: Option<String>,
    persist: F,
) -> (r: Result<RelaySettings, String>) where F: FnOnce(&RelaySettings) -> Result<(), String>
    requires
        forall|s: &RelaySettings| call_requires(persist, (s,)),
    ensures
        url_refusal(opt_seq(relay_url)) matches Some(m) ==> (r matches Err(e) && e@ == m)
            && final(store)@ == old(store)@,
        url_refusal(opt_seq(relay_url)) is None ==> persisted_as(
            persist,
            with_normalized_url(form_candidate(old(store)@, opt_seq(relay_url), opt_seq(relay_token))),
            r,
        ),
        url_refusal(opt_seq(relay_url)) is None && r is Ok ==> final(store)@ == with_normalized_url(
            form_candidate(old(store)@, opt_seq(relay_url), opt_seq(relay_token)),
        ) && r->Ok_0@ == final(store)@,
        url_refusal(opt_seq(relay_url)) is None && r is Err ==> final(store)@ == old(store)@,
        r is Ok ==> !final(store)@.paired_verified,
{
    if let Some(url) = &relay_url {
        if !is_blank(url.as_str()) {
            if let Err(e) = validate_relay_url(url.as_str()) {
                return Err(e);
            }
        }
    }
    let current = store.snapshot();
    let candidate = RelaySettings {
        relay_url: match relay_url {
            Some(u) => u,
            None => current.relay_url,
        },
        relay_token: match relay_token {
            Some(t) => t,
            None => current.relay_token,
        },
        paired_verified: false,
    };
    store.update(candidate, persist)
}

/// Takes the relay a pairing code named: its URL and token replace the current ones and the
/// pairing is to be verified, stored as [`RelaySettingsStore::update`] does.
pub fn pair_with_relay<F>(store: &mut RelaySettingsStore, relay: PairedRelay, persist: F) -> (r: Result<
    RelaySettings,
    String,
>) where F: FnOnce(&RelaySettings) -> Result<(), String>
    requires
        forall|s: &RelaySettings| call_requires(persist, (s,)),
    ensures
        persisted_as(
            persist,
            with_normalized_url(
                RelaySettingsView { relay_url: relay.url@, relay_token: relay.token@, paired_verified: false },
            ),
            r,
        ),
        r is Ok ==> final(store)@ == with_normalized_url(
            RelaySettingsView { relay_url: relay.url@, relay_token: relay.token@, paired_verified: false },
        ) && r->Ok_0@ == final(store)@,
        r is Ok ==> !final(store)@.paired_verified,
        r is Err ==> final(store)@ == old(store)@,
{
    let candidate = RelaySettings { relay_url: relay.url, relay_token: relay.token, paired_verified: false };
    store.update(candidate, persist)
}

} // verus!
