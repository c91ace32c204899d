use speechcore::feedback::FeedbackEvent;
use speechcore::real_time_transcriber::sessions::{
    ManualProcessingSession, ManualSession, SessionError,
};
use speechcore::real_time_transcriber::transcriber::{
    backend_load_finished, drain_step, initial_backend_status, monitor_tick, silero_missing_text,
    CommandReply, DrainStep, ManualSessionCommand, RealTimeTranscriber, SessionAction,
    ShutdownStep,
};
use speechcore::real_time_transcriber::TranscriptionMode;
use speechcore::state::{BackendStatusState, ProcessingState};
use speechcore::time::Instant;
use speechcore::BackendType;

const SECOND: u64 = 1_000_000_000;

fn at(seconds: u64) -> Instant {
    Instant { nanos: seconds * SECOND }
}

fn manual() -> RealTimeTranscriber {
    let mut t = RealTimeTranscriber::new("Manual", true);
    t.begin_start();
    t.start().unwrap();
    t
}

#[test]
fn modes_survive_storage() {
    for mode in [TranscriptionMode::RealTime, TranscriptionMode::Manual] {
        assert_eq!(TranscriptionMode::from_u8(mode.as_u8()), mode);
    }
    assert_eq!(TranscriptionMode::from_u8(7), TranscriptionMode::RealTime);
    assert_eq!(TranscriptionMode::from("MANUAL"), TranscriptionMode::Manual);
    assert_eq!(TranscriptionMode::from("manual "), TranscriptionMode::RealTime);
    assert_eq!(TranscriptionMode::from("\u{130}"), TranscriptionMode::RealTime);
}

#[test]
fn a_session_runs_its_course() {
    let mut t = manual();
    let session = ManualSession::with_timestamp(-12, at(1));
    let (reply, actions) = t.start_session(session);
    assert_eq!(reply.unwrap(), "session_-12");
    assert_eq!(
        actions,
        vec![
            SessionAction::BeginProcessorSession,
            SessionAction::ClearTranscripts,
            SessionAction::StartStream,
            SessionAction::SetRecording(true),
            SessionAction::Play(FeedbackEvent::SessionStart),
        ]
    );
    assert!(t.get_recording());
    assert!(t.has_active_manual_session());
    let status = t.get_manual_session_status(at(4)).unwrap();
    assert_eq!(status.duration_secs, 3);
    assert!(status.is_recording && !status.is_processing);

    let outcome = t.stop_manual_session(at(5));
    assert!(outcome.reply.is_ok());
    assert_eq!(outcome.actions, vec![SessionAction::StopStream]);
    assert_eq!(outcome.finalize.as_deref(), Some("session_-12"));
    assert!(t.get_recording(), "the flag stays up until the audio is drained");
    let status = t.get_manual_session_status(at(7)).unwrap();
    assert_eq!(status.duration_secs, 2);
    assert!(!status.is_recording && status.is_processing);

    t.begin_finalizing();
    let (reply, actions) = t.start_manual_session(at(7));
    assert!(matches!(reply, Err(SessionError::Finalizing)));
    assert!(actions.is_empty());

    assert_eq!(
        t.drain_finished(),
        vec![
            SessionAction::SetRecording(false),
            SessionAction::SetProcessingState(ProcessingState::Transcribing),
        ]
    );
    assert!(!t.get_recording());
    let actions = t.finalize_finished("session_-12", true);
    assert_eq!(actions[0], SessionAction::Play(FeedbackEvent::SessionComplete));
    assert_eq!(actions.len(), 4);
    assert!(!t.has_active_manual_session());
    assert!(t.get_manual_session_status(at(9)).is_none());
    assert!(t.start_manual_session(at(9)).0.is_ok());
}

#[test]
fn refused_starts_change_nothing() {
    let mut t = RealTimeTranscriber::new("realtime", false);
    let (reply, actions) = t.start_manual_session(at(0));
    assert_eq!(
        reply.unwrap_err().to_string(),
        "Cannot start manual session when not in manual mode"
    );
    assert!(actions.is_empty());
    assert_eq!(
        t.stop_manual_session(at(0)).reply.unwrap_err().to_string(),
        "Cannot stop manual session when not in manual mode"
    );
    assert_eq!(
        t.cancel_manual_session().0.unwrap_err().to_string(),
        "Cannot cancel manual session when not in manual mode"
    );

    let mut t = manual();
    let (first, _) = t.start_manual_session(at(0));
    let id = first.unwrap();
    assert!(id.starts_with("session_"));
    assert!(id["session_".len()..].parse::<i64>().unwrap() > 1_600_000_000_000_000);
    let (second, actions) = t.start_manual_session(at(1));
    assert_eq!(
        second.unwrap_err().to_string(),
        format!("Cannot start new session: existing session {} is still recording", id)
    );
    assert!(actions.is_empty());
    // The recording was stopped from outside: the session gives way.
    t.observe_recording(false);
    assert!(t.start_manual_session(at(2)).0.is_ok());
}

#[test]
fn stopping_without_a_session_or_a_processor() {
    let mut t = manual();
    let outcome = t.stop_manual_session(at(0));
    assert_eq!(outcome.reply.unwrap_err().to_string(), "No active manual session to stop");
    assert!(outcome.actions.is_empty());
    assert_eq!(t.cancel_manual_session().0.unwrap_err().to_string(), "No manual session to cancel");

    let mut t = RealTimeTranscriber::new("manual", false);
    let (reply, actions) = t.start_manual_session(at(0));
    assert!(reply.is_ok());
    assert_eq!(actions.len(), 3);
    let outcome = t.stop_manual_session(at(1));
    assert_eq!(
        outcome.reply.unwrap_err().to_string(),
        "Audio processor unavailable for manual transcription"
    );
    assert_eq!(outcome.finalize, None);
    assert_eq!(outcome.actions, vec![SessionAction::StopStream]);
    assert!(t.has_active_manual_session());
}

#[test]
fn cancelling_leaves_nothing() {
    let mut t = manual();
    t.start_manual_session(at(0)).0.unwrap();
    let (reply, actions) = t.cancel_manual_session();
    assert!(reply.is_ok());
    assert_eq!(
        actions,
        vec![
            SessionAction::StopStream,
            SessionAction::SetRecording(false),
            SessionAction::Play(FeedbackEvent::SessionCancel),
        ]
    );
    assert!(!t.get_recording());
    assert!(!t.has_active_manual_session());
}

#[test]
fn a_failed_session_is_marked() {
    let mut t = manual();
    let id = t.start_manual_session(at(0)).0.unwrap();
    t.stop_manual_session(at(1));
    assert_eq!(t.get_processing_session_id(), Some(id.clone()));
    t.mark_processing_session_failed("another");
    assert!(!t.clear_processing_session_if_matches("another"));
    assert_eq!(
        t.finalize_finished(&id, false),
        vec![SessionAction::SetProcessingState(ProcessingState::Error)]
    );
    assert!(t.clear_processing_session_if_matches(&id));
    assert!(t.finalize_finished(&id, true).is_empty());
}

#[test]
fn switching_modes() {
    let mut t = manual();
    let id = t.start_manual_session(at(0)).0.unwrap();
    let outcome = t.switch_mode(TranscriptionMode::RealTime, at(1));
    assert_eq!(outcome.transcribe, Some(id.clone()));
    assert_eq!(
        outcome.actions,
        vec![
            SessionAction::ClearManualBuffer,
            SessionAction::ResetVad,
            SessionAction::StopStream,
            SessionAction::StartStream,
            SessionAction::SetRecording(true),
        ]
    );
    assert_eq!(t.get_transcription_mode(), TranscriptionMode::RealTime);
    assert!(t.get_recording());
    assert!(!t.has_active_manual_session());
    assert_eq!(t.switch_finished(&id, true), vec![SessionAction::SetRealtimeSessionId]);
    assert!(t.switch_mode(TranscriptionMode::RealTime, at(2)).actions.is_empty());
    let outcome = t.switch_mode(TranscriptionMode::Manual, at(3));
    assert_eq!(
        outcome.actions,
        vec![
            SessionAction::ClearSessionId,
            SessionAction::ResetVad,
            SessionAction::StopStream,
            SessionAction::SetRecording(false),
            SessionAction::ShowNotSpeaking,
        ]
    );
    assert_eq!(outcome.transcribe, None);
    let outcome = t.switch_mode(TranscriptionMode::RealTime, at(4));
    assert!(outcome.actions.contains(&SessionAction::SetRealtimeSessionId));
    t.set_transcription_mode(TranscriptionMode::Manual);
    assert_eq!(t.get_transcription_mode(), TranscriptionMode::Manual);
}

#[test]
fn recording_is_toggled_stopped_and_resumed() {
    let mut t = RealTimeTranscriber::new("realtime", false);
    assert_eq!(
        t.toggle_recording(),
        vec![
            SessionAction::StartStream,
            SessionAction::SetRecording(true),
            SessionAction::Play(FeedbackEvent::RecordStart),
        ]
    );
    assert_eq!(
        t.toggle_recording(),
        vec![
            SessionAction::StopStream,
            SessionAction::SetRecording(false),
            SessionAction::Play(FeedbackEvent::RecordStop),
        ]
    );
    assert_eq!(t.resume(), vec![SessionAction::ResumeStream, SessionAction::SetRecording(true)]);
    assert!(t.get_recording());
    assert_eq!(t.stop(), vec![SessionAction::StopStream, SessionAction::SetRecording(false)]);
    assert!(t.get_running());
    let steps = t.shutdown();
    assert_eq!(steps[0], ShutdownStep::ClearRunning);
    assert_eq!(steps[11], ShutdownStep::ReleaseBackend);
    assert!(!t.get_running() && !t.get_recording());
}

#[test]
fn workers_start_once() {
    let mut t = manual();
    t.begin_start();
    assert_eq!(
        t.start().unwrap_err().to_string(),
        "Failed to take ownership of receivers for processors"
    );
}

#[test]
fn draining() {
    let begun = at(10);
    assert_eq!(drain_step(5, 5, begun, begun), DrainStep::Drained { received: 5 });
    assert_eq!(drain_step(5, 3, begun, at(12)), DrainStep::Wait);
    let late = Instant { nanos: at(12).nanos + 1 };
    assert_eq!(drain_step(5, 3, begun, late), DrainStep::TimedOut { lost: 2 });
    assert_eq!(drain_step(5, 9, begun, late), DrainStep::Drained { received: 9 });
}

#[test]
fn the_monitor_skips_a_tick_on_change() {
    let mut last = false;
    assert!(!monitor_tick(&mut last, true));
    assert!(last);
    assert!(monitor_tick(&mut last, true));
    assert!(!monitor_tick(&mut last, false));
    assert!(!monitor_tick(&mut last, false));
}

#[test]
fn the_first_load_is_shown() {
    let mut status = initial_backend_status::<f32>(BackendType::Moonshine, "tiny".to_string());
    assert_eq!(status.backend_name, "Moonshine");
    assert!(matches!(&status.state, BackendStatusState::Loading(s) if s == "Initializing..."));
    assert_eq!(
        backend_load_finished(&mut status, Err("no file".to_string()), at(3)),
        ProcessingState::Error
    );
    assert!(matches!(&status.state, BackendStatusState::Error(s) if s == "no file"));
    assert_eq!(status.error_time, Some(at(3)));
    assert_eq!(backend_load_finished(&mut status, Ok(()), at(4)), ProcessingState::Idle);
    assert!(matches!(status.state, BackendStatusState::Ready));
    assert_eq!(
        silero_missing_text("/m/silero_vad.onnx"),
        "Silero VAD model not found at /m/silero_vad.onnx. Please run the application again to download it."
    );
}

#[test]
fn statuses_count_from_the_right_moment() {
    let session = ManualSession::with_timestamp(1, at(10));
    assert_eq!(session.get_duration_secs(at(9)), 0);
    assert_eq!(session.get_duration_secs(at(13)), 3);
    let processing = ManualProcessingSession::new(session, at(20));
    assert_eq!(processing.session_id(), "session_1");
    let status = processing.get_status(at(26));
    assert_eq!(status.duration_secs, 6);
    assert!(status.is_processing && !status.is_recording);
}

#[test]
fn commands_are_carried_out() {
    let mut t = manual();
    let outcome = t.handle_command(ManualSessionCommand::CancelSession, at(0));
    assert!(matches!(outcome.reply, CommandReply::Cancelled(Err(SessionError::NothingToCancel))));
    assert!(outcome.actions.is_empty());

    let session = ManualSession::with_timestamp(77, at(1));
    let outcome = t.handle_command_with(ManualSessionCommand::StartSession, session, at(1));
    assert!(matches!(&outcome.reply, CommandReply::Started(Ok(id)) if id == "session_77"));
    let up = outcome.actions.iter().position(|a| *a == SessionAction::SetRecording(true)).unwrap();
    assert_eq!(outcome.actions[up - 1], SessionAction::StartStream);
    assert!(t.get_recording());

    // Stopping keeps the flag up until the audio is drained.
    let outcome = t.handle_command(ManualSessionCommand::StopSession, at(2));
    assert!(matches!(outcome.reply, CommandReply::Stopped(Ok(()))));
    assert_eq!(outcome.finalize.as_deref(), Some("session_77"));
    assert_eq!(outcome.actions, vec![SessionAction::StopStream]);
    assert!(t.get_recording());

    let to_realtime = ManualSessionCommand::SwitchMode(TranscriptionMode::RealTime);
    t.handle_command(ManualSessionCommand::StartSession, at(3));
    t.observe_recording(false);
    let outcome = t.handle_command(ManualSessionCommand::StartSession, at(4));
    let id = match outcome.reply {
        CommandReply::Started(Ok(id)) => id,
        other => panic!("{:?}", other),
    };
    let outcome = t.handle_command(to_realtime, at(5));
    assert!(matches!(outcome.reply, CommandReply::Switched));
    assert_eq!(outcome.transcribe, Some(id));
    let again = t.handle_command(to_realtime, at(6));
    assert!(again.actions.is_empty() && again.transcribe.is_none());
    let refused = t.handle_command(ManualSessionCommand::StopSession, at(7));
    assert!(matches!(
        refused.reply,
        CommandReply::Stopped(Err(SessionError::StopOutsideManualMode))
    ));
}
