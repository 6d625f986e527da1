//! Checking that the paired assistant answers: what a probe's reply means for the user.
use vstd::prelude::*;

use crate::keyed::str_eq;
use crate::reply_router::opt_view;
use crate::relay_settings::{configured, persisted_as, RelaySettings, RelaySettingsStore, with_normalized_url};
use crate::reply_router::probe::ProbeOutcome;

verus! {

pub const UNREACHABLE_MESSAGE: &'static str = "Your assistant couldn't be reached. Make sure it's running and has approved this device, then try again.";

pub const PROBE_TIMEOUT_MESSAGE: &'static str = "Your assistant didn't answer in time. Check that it's running, then try again.";

pub const RELAY_NOT_CONFIGURED: &'static str = "Relay not configured";

pub const PROBE_DROPPED_MESSAGE: &'static str = "Couldn't get an answer from your assistant. Check that it's running, then try again.";

/// The text shown when a probe reply does not show the assistant reachable: the reply's own
/// error message, else a general one.
pub fn probe_error_message(outcome: &ProbeOutcome) -> (m: String)
    ensures
        m@ == match opt_view(outcome.error_message) {
            Some(e) => e,
            None => UNREACHABLE_MESSAGE@,
        },
{
    match &outcome.error_message {
        Some(e) => e.clone(),
        None => UNREACHABLE_MESSAGE.to_owned(),
    }
}

pub open spec fn reachable_status(status: Seq<char>) -> bool {
    status == "completed"@ || status == "message"@
}

/// A probe reply with this status shows the assistant reachable.
pub fn probe_indicates_reachable(status: &str) -> (r: bool)
    ensures
        r == reachable_status(status@),
{
    str_eq(status, "completed") || str_eq(status, "message")
}

/// What the pairing screen is told.
#[derive(Debug, Clone)]
pub struct ProbeResult {
    pub reachable: bool,
    pub reply: Option<String>,
}

/// The answer to a pairing probe: reachable with the reply's text, or the error message.
pub fn pairing_probe_result(outcome: ProbeOutcome) -> (r: Result<ProbeResult, String>)
    ensures
        reachable_status(outcome.status@) ==> (r matches Ok(p) && p.reachable && opt_view(p.reply)
            == opt_view(outcome.reply_text)),
        !reachable_status(outcome.status@) ==> (r matches Err(m) && m@ == match opt_view(
            outcome.error_message,
        ) {
            Some(e) => e,
            None => UNREACHABLE_MESSAGE@,
        }),
{
    if probe_indicates_reachable(outcome.status.as_str()) {
        Ok(ProbeResult { reachable: true, reply: outcome.reply_text })
    } else {
        Err(probe_error_message(&outcome))
    }
}

/// How the wait for a probe's reply ended.
pub enum ProbeWait {
    /// The reply came.
    Answered(ProbeOutcome),
    /// The registry dropped the probe before a reply came.
    Dropped,
    /// No reply came in time.
    TimedOut,
}

/// The probe's result, and whether its registration must still be cancelled (only when it
/// timed out: an answer or a drop has already removed it).
pub fn probe_wait_result(wait: ProbeWait) -> (r: (Result<ProbeOutcome, String>, bool))
    ensures
        match wait {
            ProbeWait::Answered(o) => (r.0 matches Ok(x) && x@ == o@) && !r.1,
            ProbeWait::Dropped => (r.0 matches Err(m) && m@ == PROBE_DROPPED_MESSAGE@) && !r.1,
            ProbeWait::TimedOut => (r.0 matches Err(m) && m@ == PROBE_TIMEOUT_MESSAGE@) && r.1,
        },
{
    match wait {
        ProbeWait::Answered(o) => (Ok(o), false),
        ProbeWait::Dropped => (Err(PROBE_DROPPED_MESSAGE.to_owned()), false),
        ProbeWait::TimedOut => (Err(PROBE_TIMEOUT_MESSAGE.to_owned()), true),
    }
}

/// A probe can only be sent to a configured relay.
pub fn probe_precheck(settings: &RelaySettings) -> (r: Result<(), String>)
    ensures
        configured(settings@) ==> r is Ok,
        !configured(settings@) ==> (r matches Err(m) && m@ == RELAY_NOT_CONFIGURED@),
{
    if settings.has_relay() {
        Ok(())
    } else {
        Err(RELAY_NOT_CONFIGURED.to_owned())
    }
}

/// Records that the assistant approved this device, once a probe's reply shows it reachable:
/// the pairing is marked verified and stored as [`RelaySettingsStore::update`] does. A reply
/// that does not show it reachable is answered with its error message, and nothing changes.
pub fn confirm_device_approved<F>(store: &mut RelaySettingsStore, outcome: ProbeOutcome, persist: F) -> (r:
    Result<RelaySettings, String>) where F: FnOnce(&RelaySettings) -> Result<(), String>
    requires
        forall|s: &RelaySettings| call_requires(persist, (s,)),
    ensures
        !reachable_status(outcome.status@) ==> (r matches Err(m) && m@ == match opt_view(
            outcome.error_message,
        ) {
            Some(e) => e,
            None => UNREACHABLE_MESSAGE@,
        }) && final(store)@ == old(store)@,
        reachable_status(outcome.status@) ==> persisted_as(
            persist,
            with_normalized_url(crate::relay_settings::RelaySettingsView { paired_verified: true, ..old(store)@ }),
            r,
        ),
        reachable_status(outcome.status@) && r is Ok ==> final(store)@ == with_normalized_url(
            crate::relay_settings::RelaySettingsView { paired_verified: true, ..old(store)@ },
        ) && r->Ok_0@ == final(store)@,
        reachable_status(outcome.status@) && r is Err ==> final(store)@ == old(store)@,
        r is Ok ==> final(store)@.paired_verified,
{
    if !probe_indicates_reachable(outcome.status.as_str()) {
        return Err(probe_error_message(&outcome));
    }
    let current = store.snapshot();
    let candidate = RelaySettings {
        relay_url: current.relay_url,
        relay_token: current.relay_token,
        paired_verified: true,
    };
    store.update(candidate, persist)
}

} // verus!
