//! The decisions of a capture session's audio loop: when a silent system-audio stream is
//! restarted, when the session carries on with the microphone alone, and when it ends.
use std::time::Instant;
use vstd::prelude::*;

use crate::accumulate::TranscriptSource;

verus! {

/// A chunk of 16-bit samples from one of the two capture streams, with the time it was taken.
pub enum AudioFrame {
    /// What the other side says, from the system output.
    System(Vec<i16>, Instant),
    /// What the user says, from the microphone.
    Mic(Vec<i16>, Instant),
}

/// Why a capture session stopped.
#[derive(Clone, Copy, Debug, PartialEq, Eq, Structural)]
pub enum AudioStopReason {
    Complete,
}

/// Whose words a frame carries: the system stream is the others, the microphone the user.
pub fn frame_source(frame: &AudioFrame) -> (s: TranscriptSource)
    ensures
        frame is System ==> s == TranscriptSource::Others,
        frame is Mic ==> s == TranscriptSource::You,
{
    match frame {
        AudioFrame::System(..) => TranscriptSource::Others,
        AudioFrame::Mic(..) => TranscriptSource::You,
    }
}

pub const ALL_AUDIO_STALLED_MESSAGE: &'static str = "Audio capture stopped and could not be restarted. The session was ended and your transcript saved.";

pub const SYSTEM_AUDIO_STALLED_MESSAGE: &'static str = "System audio capture stopped and could not be restarted. The session was ended and your transcript saved.";

pub const MIC_ONLY_MESSAGE: &'static str = "System audio capture stopped and could not be restarted. The session continues with your microphone only.";

/// What the audio loop does after a pass without a stop signal.
#[derive(Debug, Clone, Copy, PartialEq, Eq, Structural)]
pub enum StallAction {
    /// Nothing to do.
    Continue,
    /// Stop the system-audio stream and start a new one.
    RestartSystemStream,
    /// Give up on system audio and carry on with the microphone (tell the user).
    ContinueMicOnly,
    /// End the session: all audio stopped after system audio was given up on.
    EndAllStalled,
    /// End the session: system audio could not be restarted and nothing else is heard.
    EndSystemStalled,
}

/// The watch kept over the system-audio stream.
pub struct StallMonitor {
    max_restarts: u32,
    restarts: u32,
    abandoned: bool,
}

pub struct StallView {
    pub max_restarts: u32,
    pub restarts: u32,
    pub abandoned: bool,
}

impl View for StallMonitor {
    type V = StallView;

    closed spec fn view(&self) -> StallView {
        StallView { max_restarts: self.max_restarts, restarts: self.restarts, abandoned: self.abandoned }
    }
}

/// The action and next state after a pass in which system audio has (`system_silent`) or has
/// not been heard for the stall timeout, and all audio has (`all_silent`) or not.
pub open spec fn stall_step(s: StallView, system_silent: bool, all_silent: bool) -> (StallView, StallAction) {
    if s.abandoned {
        if all_silent {
            (s, StallAction::EndAllStalled)
        } else {
            (s, StallAction::Continue)
        }
    } else if system_silent {
        if s.restarts >= s.max_restarts {
            if all_silent {
                (s, StallAction::EndSystemStalled)
            } else {
                (StallView { abandoned: true, ..s }, StallAction::ContinueMicOnly)
            }
        } else {
            (StallView { restarts: (s.restarts + 1) as u32, ..s }, StallAction::RestartSystemStream)
        }
    } else {
        (s, StallAction::Continue)
    }
}

impl StallMonitor {
    pub closed spec fn wf(&self) -> bool {
        self.restarts <= self.max_restarts
    }

    /// A fresh watch that restarts a silent stream at most `max_restarts` times in a row.
    pub fn new(max_restarts: u32) -> (m: Self)
        ensures
            m.wf(),
            m@ == (StallView { max_restarts, restarts: 0, abandoned: false }),
    {
        StallMonitor { max_restarts, restarts: 0, abandoned: false }
    }

    /// System audio was heard: the restart count starts over, and a stream given up on is
    /// watched again. Tells whether it had been given up on.
    pub fn on_system_audio(&mut self) -> (recovered: bool)
        requires
            old(self).wf(),
        ensures
            final(self).wf(),
            recovered == old(self)@.abandoned,
            final(self)@ == (StallView { max_restarts: old(self)@.max_restarts, restarts: 0, abandoned: false }),
    {
        self.restarts = 0;
        let recovered = self.abandoned;
        self.abandoned = false;
        recovered
    }

    /// A frame arrived: a system frame counts as system audio heard (see
    /// [`StallMonitor::on_system_audio`]); a microphone frame leaves the watch as it is. Tells
    /// whether system audio came back after being given up on.
    pub fn on_frame(&mut self, frame: &AudioFrame) -> (recovered: bool)
        requires
            old(self).wf(),
        ensures
            final(self).wf(),
            frame is System ==> recovered == old(self)@.abandoned && final(self)@ == (StallView {
                max_restarts: old(self)@.max_restarts,
                restarts: 0,
                abandoned: false,
            }),
            frame is Mic ==> !recovered && final(self)@ == old(self)@,
    {
        match frame {
            AudioFrame::System(..) => self.on_system_audio(),
            AudioFrame::Mic(..) => false,
        }
    }

    /// Decides what a pass of the loop does about silence.
    pub fn on_pass(&mut self, system_silent: bool, all_silent: bool) -> (a: StallAction)
        requires
            old(self).wf(),
        ensures
            final(self).wf(),
            (final(self)@, a) == stall_step(old(self)@, system_silent, all_silent),
    {
        if self.abandoned {
            if all_silent {
                StallAction::EndAllStalled
            } else {
                StallAction::Continue
            }
        } else if system_silent {
            if self.restarts >= self.max_restarts {
                if all_silent {
                    StallAction::EndSystemStalled
                } else {
                    self.abandoned = true;
                    StallAction::ContinueMicOnly
                }
            } else {
                self.restarts = self.restarts + 1;
                StallAction::RestartSystemStream
            }
        } else {
            StallAction::Continue
        }
    }
}

/// A session ends on silence only when nothing at all is heard, and a silent system stream
/// is restarted at most the allowed number of times in a row before it is given up on.
pub proof fn law_silence_ends_only_when_all_is_silent(s: StallView, system_silent: bool, all_silent: bool)
    requires
        s.restarts <= s.max_restarts,
    ensures
        ({
            let (next, a) = stall_step(s, system_silent, all_silent);
            &&& (a == StallAction::EndAllStalled || a == StallAction::EndSystemStalled) ==> all_silent
            &&& a == StallAction::RestartSystemStream ==> s.restarts < s.max_restarts
            &&& next.restarts <= next.max_restarts
            &&& next.max_restarts == s.max_restarts
        }),
{
}

/// The notice the user gets for an action: why the session ended, or that it goes on with
/// the microphone alone.
pub fn stall_notice(a: StallAction) -> (n: Option<&'static str>)
    ensures
        a == StallAction::EndAllStalled ==> n == Some(ALL_AUDIO_STALLED_MESSAGE),
        a == StallAction::EndSystemStalled ==> n == Some(SYSTEM_AUDIO_STALLED_MESSAGE),
        a == StallAction::ContinueMicOnly ==> n == Some(MIC_ONLY_MESSAGE),
        a == StallAction::Continue || a == StallAction::RestartSystemStream ==> n is None,
{
    match a {
        StallAction::EndAllStalled => Some(ALL_AUDIO_STALLED_MESSAGE),
        StallAction::EndSystemStalled => Some(SYSTEM_AUDIO_STALLED_MESSAGE),
        StallAction::ContinueMicOnly => Some(MIC_ONLY_MESSAGE),
        StallAction::Continue | StallAction::RestartSystemStream => None,
    }
}

/// The reason the loop stops for an action, if it stops: the two endings complete the session.
pub fn stall_stop_reason(a: StallAction) -> (r: Option<AudioStopReason>)
    ensures
        r is Some <==> (a == StallAction::EndAllStalled || a == StallAction::EndSystemStalled),
        r matches Some(x) ==> x == AudioStopReason::Complete,
{
    match a {
        StallAction::EndAllStalled | StallAction::EndSystemStalled => Some(AudioStopReason::Complete),
        _ => None,
    }
}

/// Whether a stopped session's transcript is handed on to the notes: only when the session
/// completed (the stop channel did not just close) and something was said.
pub fn finalizes_transcript(reason: Option<AudioStopReason>, has_segments: bool) -> (r: bool)
    ensures
        r == (reason is Some && has_segments),
{
    match reason {
        Some(AudioStopReason::Complete) => has_segments,
        None => false,
    }
}

/// After the capture loop panicked `retries` times already: the new count, or none when the
/// session must give up (more than `max_retries` panics).
pub fn after_panic(retries: u32, max_retries: u32) -> (r: Option<u32>)
    ensures
        retries + 1 > max_retries ==> r is None,
        retries + 1 <= max_retries ==> r == Some((retries + 1) as u32),
{
    if retries >= max_retries {
        None
    } else {
        Some(retries + 1)
    }
}

pub const STARTUP_TIMEOUT_MESSAGE: &'static str = "timed out while starting local capture";

pub const STARTUP_DISCONNECTED_MESSAGE: &'static str = "local capture thread exited before startup confirmation";

/// How the wait for the capture thread's start ended.
pub enum StartupWait {
    /// The thread reported its start, or the error that stopped it.
    Reported(Result<(), String>),
    /// No report came in time.
    TimedOut,
    /// The thread ended without reporting.
    Disconnected,
}

/// Whether capture started, and whether the thread must be told to stop (only when it did
/// not report in time).
pub fn startup_result(wait: StartupWait) -> (r: (Result<(), String>, bool))
    ensures
        match wait {
            StartupWait::Reported(Ok(())) => r.0 is Ok && !r.1,
            StartupWait::Reported(Err(e)) => (r.0 matches Err(x) && x@ == e@) && !r.1,
            StartupWait::TimedOut => (r.0 matches Err(x) && x@ == STARTUP_TIMEOUT_MESSAGE@) && r.1,
            StartupWait::Disconnected => (r.0 matches Err(x) && x@ == STARTUP_DISCONNECTED_MESSAGE@)
                && !r.1,
        },
{
    match wait {
        StartupWait::Reported(Ok(())) => (Ok(()), false),
        StartupWait::Reported(Err(e)) => (Err(e), false),
        StartupWait::TimedOut => (Err(STARTUP_TIMEOUT_MESSAGE.to_owned()), true),
        StartupWait::Disconnected => (Err(STARTUP_DISCONNECTED_MESSAGE.to_owned()), false),
    }
}

} // verus!
