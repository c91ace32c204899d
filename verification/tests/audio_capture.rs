use speechcore::audio_capture::{
    callback_decision, callback_stalled, AudioCapture, CallbackDecision, CaptureError,
    StreamCommand, CALLBACK_STALL_TIMEOUT,
};
use speechcore::time::Instant;
use std::time::{SystemTime, UNIX_EPOCH};

fn now() -> Instant {
    let elapsed = SystemTime::now().duration_since(UNIX_EPOCH).unwrap();
    Instant { nanos: elapsed.as_nanos() as u64 }
}

fn after(start: Instant, nanos: u64) -> Instant {
    Instant { nanos: start.nanos + nanos }
}

#[test]
fn first_check_only_arms_the_window() {
    let now = now();
    let (stalled, seen) = callback_stalled(None, 7, now);
    assert!(!stalled);
    assert_eq!(seen, Some((7, now)));
}

#[test]
fn advancing_callbacks_never_stall() {
    let start = now();
    let (_, seen) = callback_stalled(None, 7, start);
    let later = after(start, CALLBACK_STALL_TIMEOUT * 5);
    let (stalled, seen) = callback_stalled(seen, 8, later);
    assert!(!stalled, "a device still delivering samples is healthy");
    assert_eq!(seen, Some((8, later)));
}

#[test]
fn frozen_callbacks_stall_only_after_the_timeout() {
    let start = now();
    let (_, seen) = callback_stalled(None, 7, start);

    let (stalled, seen) = callback_stalled(seen, 7, after(start, CALLBACK_STALL_TIMEOUT / 2));
    assert!(!stalled, "brief jitter is not a dead device");

    // The window must accumulate rather than reset on each check.
    let (stalled, _) = callback_stalled(seen, 7, after(start, CALLBACK_STALL_TIMEOUT));
    assert!(stalled);
}

#[test]
fn recording_rebuilds_the_device() {
    let mut capture = AudioCapture::new();
    assert_eq!(capture.buffer_size, 1024);
    let (plan, result) = capture.start_recording(false);
    assert!(plan.is_empty());
    assert_eq!(result, Err(CaptureError::NotStarted));

    assert_eq!(capture.start(false), vec![StreamCommand::Initialize, StreamCommand::Open]);
    capture.device_reported(true, true);
    let (plan, result) = capture.start_recording(false);
    assert_eq!(result, Ok(()));
    assert_eq!(
        plan,
        vec![
            StreamCommand::Abort,
            StreamCommand::Close,
            StreamCommand::Initialize,
            StreamCommand::Open,
            StreamCommand::StartIfInactive,
        ]
    );
    capture.device_reported(true, true);
    assert_eq!(capture.stop_recording(), vec![StreamCommand::StopIfActive]);
    assert_eq!(capture.pause(), vec![StreamCommand::StopIfActive]);
    assert_eq!(capture.stop(), vec![StreamCommand::Stop, StreamCommand::Close]);
    assert!(!capture.started);
    assert!(capture.stop_recording().is_empty());
}

#[test]
fn recovery_is_attempted_once_per_timeout() {
    let mut capture = AudioCapture::with_buffer_size(256);
    capture.start(true);
    capture.device_reported(true, true);
    let start = Instant { nanos: 1_000 };
    assert!(capture.recover_if_stalled(5, true, true, start).is_none());
    assert_eq!(capture.callback_seen, Some((5, start)));
    let later = after(start, CALLBACK_STALL_TIMEOUT);
    let (plan, result) = capture.recover_if_stalled(5, true, true, later).unwrap();
    assert_eq!(result, Ok(()));
    assert_eq!(plan.len(), 6);
    assert_eq!(capture.last_recovery_attempt, Some(later));
    assert_eq!(capture.callback_seen, None);
    // Dead, but too soon.
    assert!(capture.recover_if_stalled(5, false, true, after(later, 1)).is_none());
    // Dead, and late enough.
    let again = after(later, CALLBACK_STALL_TIMEOUT);
    assert!(capture.recover_if_stalled(5, false, true, again).is_some());
}

#[test]
fn capture_errors_and_callback() {
    assert_eq!(CaptureError::NotStarted.message(), "Audio capture has not been started");
    assert_eq!(CaptureError::NoStream.message(), "No audio input stream");
    let capture = AudioCapture::with_buffer_size(5_000_000_000);
    let error = capture.frames_per_buffer().unwrap_err();
    assert_eq!(error, CaptureError::BufferTooLarge(5_000_000_000));
    assert_eq!(error.message(), "Audio buffer size too large: 5000000000");
    assert_eq!(AudioCapture::default().frames_per_buffer(), Ok(1024));
    assert_eq!(
        callback_decision(true, false),
        CallbackDecision { send: true, keep_running: false }
    );
}

#[test]
fn a_device_that_did_not_open_is_released() {
    let mut capture = AudioCapture::new();
    assert_eq!(capture.start(false), vec![StreamCommand::Initialize, StreamCommand::Open]);
    // The audio system came up, the stream did not.
    capture.device_reported(true, false);
    assert!(capture.stop_recording().is_empty());
    let (plan, result) = capture.start_recording(false);
    assert!(result.is_ok());
    assert_eq!(
        plan,
        vec![
            StreamCommand::Close,
            StreamCommand::Initialize,
            StreamCommand::Open,
            StreamCommand::StartIfInactive,
        ]
    );
    capture.device_reported(true, true);
    assert_eq!(capture.stop(), vec![StreamCommand::Stop, StreamCommand::Close]);
    assert!(capture.stop().is_empty());
}

#[test]
fn any_number_of_checks_accumulates() {
    let start = now();
    let (_, mut seen) = callback_stalled(None, 7, start);
    for i in 1..10 {
        let (stalled, next) = callback_stalled(seen, 7, after(start, CALLBACK_STALL_TIMEOUT / 10 * i));
        assert!(!stalled);
        seen = next;
        assert_eq!(seen, Some((7, start)));
    }
    assert!(callback_stalled(seen, 7, after(start, CALLBACK_STALL_TIMEOUT)).0);
}
