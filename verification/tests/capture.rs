use std::time::Instant;

use stagewhisper::accumulate::TranscriptSource;
use stagewhisper::capture::{
    after_panic, finalizes_transcript, frame_source, stall_notice, stall_stop_reason,
    startup_result, AudioFrame, AudioStopReason, StallAction, StallMonitor, StartupWait,
    ALL_AUDIO_STALLED_MESSAGE, MIC_ONLY_MESSAGE, STARTUP_TIMEOUT_MESSAGE,
    SYSTEM_AUDIO_STALLED_MESSAGE,
};

#[test]
fn a_silent_system_stream_is_restarted_then_given_up_for_the_microphone() {
    let mut m = StallMonitor::new(2);
    assert_eq!(m.on_pass(false, false), StallAction::Continue);
    assert_eq!(m.on_pass(true, false), StallAction::RestartSystemStream);
    assert_eq!(m.on_pass(true, false), StallAction::RestartSystemStream);
    assert_eq!(m.on_pass(true, false), StallAction::ContinueMicOnly);
    assert_eq!(m.on_pass(true, false), StallAction::Continue);
    assert_eq!(m.on_pass(true, true), StallAction::EndAllStalled);
}

#[test]
fn hearing_system_audio_again_starts_the_watch_over() {
    let mut m = StallMonitor::new(1);
    assert_eq!(m.on_pass(true, false), StallAction::RestartSystemStream);
    assert_eq!(m.on_pass(true, false), StallAction::ContinueMicOnly);
    assert!(m.on_system_audio());
    assert!(!m.on_system_audio());
    assert_eq!(m.on_pass(true, false), StallAction::RestartSystemStream);
}

#[test]
fn with_no_audio_at_all_the_session_ends_once_restarts_are_spent() {
    let mut m = StallMonitor::new(0);
    assert_eq!(m.on_pass(true, true), StallAction::EndSystemStalled);
}

#[test]
fn repeated_panics_give_up_past_the_limit() {
    assert_eq!(after_panic(0, 3), Some(1));
    assert_eq!(after_panic(2, 3), Some(3));
    assert_eq!(after_panic(3, 3), None);
}

#[test]
fn a_capture_that_does_not_report_in_time_is_stopped() {
    let (r, stop) = startup_result(StartupWait::TimedOut);
    assert_eq!(r.unwrap_err(), STARTUP_TIMEOUT_MESSAGE);
    assert!(stop);
    let (r, stop) = startup_result(StartupWait::Reported(Ok(())));
    assert!(r.is_ok());
    assert!(!stop);
    let (r, _) = startup_result(StartupWait::Reported(Err("no device".to_string())));
    assert_eq!(r.unwrap_err(), "no device");
}

#[test]
fn system_frames_are_the_others_and_microphone_frames_the_user() {
    assert_eq!(frame_source(&AudioFrame::System(vec![1, 2], Instant::now())), TranscriptSource::Others);
    assert_eq!(frame_source(&AudioFrame::Mic(vec![3], Instant::now())), TranscriptSource::You);
}

#[test]
fn only_a_system_frame_brings_a_given_up_stream_back() {
    let mut m = StallMonitor::new(0);
    assert_eq!(m.on_pass(true, false), StallAction::ContinueMicOnly);
    assert!(!m.on_frame(&AudioFrame::Mic(vec![0], Instant::now())));
    assert_eq!(m.on_pass(true, true), StallAction::EndAllStalled);
    assert!(m.on_frame(&AudioFrame::System(vec![0], Instant::now())));
    assert!(!m.on_frame(&AudioFrame::System(vec![0], Instant::now())));
}

#[test]
fn each_stall_action_has_its_notice_and_only_the_endings_stop() {
    assert_eq!(stall_notice(StallAction::EndAllStalled), Some(ALL_AUDIO_STALLED_MESSAGE));
    assert_eq!(stall_notice(StallAction::EndSystemStalled), Some(SYSTEM_AUDIO_STALLED_MESSAGE));
    assert_eq!(stall_notice(StallAction::ContinueMicOnly), Some(MIC_ONLY_MESSAGE));
    assert_eq!(stall_notice(StallAction::Continue), None);
    assert_eq!(stall_notice(StallAction::RestartSystemStream), None);
    assert_eq!(stall_stop_reason(StallAction::EndAllStalled), Some(AudioStopReason::Complete));
    assert_eq!(stall_stop_reason(StallAction::EndSystemStalled), Some(AudioStopReason::Complete));
    assert_eq!(stall_stop_reason(StallAction::ContinueMicOnly), None);
    assert_eq!(stall_stop_reason(StallAction::RestartSystemStream), None);
}

#[test]
fn a_transcript_is_finalized_only_for_a_completed_session_with_words() {
    assert!(finalizes_transcript(Some(AudioStopReason::Complete), true));
    assert!(!finalizes_transcript(Some(AudioStopReason::Complete), false));
    assert!(!finalizes_transcript(None, true));
}
