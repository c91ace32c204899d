//! Manual transcription sessions.

use vstd::prelude::*;

use crate::text::numbers::{
    decimal, lemma_decimal_in_digits, signed_decimal, signed_decimal_text,
};
use crate::text::strings::{concat, concat3};
use crate::time::{nanos_between, utc_micros, Instant, NANOS_PER_SEC};

verus! {

/// Status of a manual transcription session.
#[derive(Debug, Clone)]
pub struct ManualSessionStatus {
    pub session_id: String,
    pub is_recording: bool,
    pub is_processing: bool,
    pub duration_secs: u32,
}

/// What a [`ManualSessionStatus`] holds.
pub struct StatusView {
    pub session_id: Seq<char>,
    pub is_recording: bool,
    pub is_processing: bool,
    pub duration_secs: int,
}

impl View for ManualSessionStatus {
    type V = StatusView;

    open spec fn view(&self) -> StatusView {
        StatusView {
            session_id: self.session_id@,
            is_recording: self.is_recording,
            is_processing: self.is_processing,
            duration_secs: self.duration_secs as int,
        }
    }
}

/// Manual transcription session data.
#[derive(Debug)]
pub struct ManualSession {
    pub session_id: String,
    pub start_time: Instant,
    pub is_recording: bool,
    pub is_processing: bool,
}

/// What a [`ManualSession`] holds.
pub struct SessionView {
    pub session_id: Seq<char>,
    pub start_time: Instant,
    pub is_recording: bool,
    pub is_processing: bool,
}

impl View for ManualSession {
    type V = SessionView;

    open spec fn view(&self) -> SessionView {
        SessionView {
            session_id: self.session_id@,
            start_time: self.start_time,
            is_recording: self.is_recording,
            is_processing: self.is_processing,
        }
    }
}

/// A new session begun at `now`, named by a timestamp in microseconds.
pub open spec fn new_session(micros: i64, now: Instant) -> SessionView {
    SessionView {
        session_id: "session_"@ + signed_decimal(micros as int),
        start_time: now,
        is_recording: true,
        is_processing: false,
    }
}

/// Whole seconds, in 32 bits, from one instant to another.
pub open spec fn seconds_between(from: Instant, to: Instant) -> int {
    (nanos_between(from, to) / NANOS_PER_SEC as int) % 0x1_0000_0000
}

/// The status of a session at `now`.
pub open spec fn session_status(s: SessionView, now: Instant) -> StatusView {
    StatusView {
        session_id: s.session_id,
        is_recording: s.is_recording,
        is_processing: s.is_processing,
        duration_secs: seconds_between(s.start_time, now),
    }
}

impl ManualSession {
    /// A new session, named by the time of day.
    pub fn new(now: Instant) -> (r: Self)
        ensures
            exists|micros: i64| r@ == #[trigger] new_session(micros, now),
    {
        ManualSession::with_timestamp(utc_micros(), now)
    }

    /// A new session, named by a timestamp in microseconds.
    pub fn with_timestamp(micros: i64, now: Instant) -> (r: Self)
        ensures
            r@ == new_session(micros, now),
    {
        ManualSession {
            session_id: concat("session_", signed_decimal_text(micros).as_str()),
            start_time: now,
            is_recording: true,
            is_processing: false,
        }
    }

    /// Whole seconds since the session began.
    pub fn get_duration_secs(&self, now: Instant) -> (r: u32)
        ensures
            r == seconds_between(self@.start_time, now),
    {
        now.seconds_since(self.start_time)
    }

    /// The status of the session at `now`.
    pub fn get_status(&self, now: Instant) -> (r: ManualSessionStatus)
        ensures
            r@ == session_status(self@, now),
    {
        ManualSessionStatus {
            session_id: self.session_id.clone(),
            is_recording: self.is_recording,
            is_processing: self.is_processing,
            duration_secs: self.get_duration_secs(now),
        }
    }
}

/// Manual session currently being processed, no longer recording.
#[derive(Debug)]
pub struct ManualProcessingSession {
    pub session: ManualSession,
    pub processing_start_time: Instant,
}

/// What a [`ManualProcessingSession`] holds.
pub struct ProcessingView {
    pub session: SessionView,
    pub processing_start_time: Instant,
}

impl View for ManualProcessingSession {
    type V = ProcessingView;

    open spec fn view(&self) -> ProcessingView {
        ProcessingView {
            session: self.session@,
            processing_start_time: self.processing_start_time,
        }
    }
}

/// A session moved into processing at `now`.
pub open spec fn processing_of(s: SessionView, now: Instant) -> ProcessingView {
    ProcessingView {
        session: SessionView { is_recording: false, is_processing: true, ..s },
        processing_start_time: now,
    }
}

/// The status of a session being processed: the time counts from the start of
/// processing.
pub open spec fn processing_status(p: ProcessingView, now: Instant) -> StatusView {
    StatusView {
        session_id: p.session.session_id,
        is_recording: false,
        is_processing: true,
        duration_secs: seconds_between(p.processing_start_time, now),
    }
}

impl ManualProcessingSession {
    /// Moves a session into processing.
    pub fn new(session: ManualSession, now: Instant) -> (r: Self)
        ensures
            r@ == processing_of(session@, now),
    {
        let mut session = session;
        session.is_recording = false;
        session.is_processing = true;
        ManualProcessingSession { session, processing_start_time: now }
    }

    /// The status of the session at `now`.
    pub fn get_status(&self, now: Instant) -> (r: ManualSessionStatus)
        ensures
            r@ == processing_status(self@, now),
    {
        ManualSessionStatus {
            session_id: self.session.session_id.clone(),
            is_recording: false,
            is_processing: true,
            duration_secs: now.seconds_since(self.processing_start_time),
        }
    }

    /// The id of the session.
    pub fn session_id(&self) -> (r: &str)
        ensures
            r@ == self@.session.session_id,
    {
        self.session.session_id.as_str()
    }
}

/// Why a session command is refused.
#[derive(Debug, Clone)]
pub enum SessionError {
    /// A session was to be started outside manual mode.
    StartOutsideManualMode,
    /// A session was to be stopped outside manual mode.
    StopOutsideManualMode,
    /// A session was to be cancelled outside manual mode.
    CancelOutsideManualMode,
    /// The previous session is being finalized.
    Finalizing,
    /// The session with this id is still recording.
    StillRecording(String),
    /// There is no session to stop.
    NothingToStop,
    /// There is no session to cancel.
    NothingToCancel,
    /// There is no audio processor to hand the recording to.
    ProcessorUnavailable,
    /// The worker tasks were started before.
    AlreadyStarted,
}

/// What a [`SessionError`] holds.
pub enum SessionErrorView {
    StartOutsideManualMode,
    StopOutsideManualMode,
    CancelOutsideManualMode,
    Finalizing,
    StillRecording(Seq<char>),
    NothingToStop,
    NothingToCancel,
    ProcessorUnavailable,
    AlreadyStarted,
}

impl View for SessionError {
    type V = SessionErrorView;

    open spec fn view(&self) -> SessionErrorView {
        match self {
            SessionError::StartOutsideManualMode => SessionErrorView::StartOutsideManualMode,
            SessionError::StopOutsideManualMode => SessionErrorView::StopOutsideManualMode,
            SessionError::CancelOutsideManualMode => SessionErrorView::CancelOutsideManualMode,
            SessionError::Finalizing => SessionErrorView::Finalizing,
            SessionError::StillRecording(id) => SessionErrorView::StillRecording(id@),
            SessionError::NothingToStop => SessionErrorView::NothingToStop,
            SessionError::NothingToCancel => SessionErrorView::NothingToCancel,
            SessionError::ProcessorUnavailable => SessionErrorView::ProcessorUnavailable,
            SessionError::AlreadyStarted => SessionErrorView::AlreadyStarted,
        }
    }
}

/// The text of a session error.
pub open spec fn session_error_text(e: SessionErrorView) -> Seq<char> {
    match e {
        SessionErrorView::StartOutsideManualMode =>
            "Cannot start manual session when not in manual mode"@,
        SessionErrorView::StopOutsideManualMode =>
            "Cannot stop manual session when not in manual mode"@,
        SessionErrorView::CancelOutsideManualMode =>
            "Cannot cancel manual session when not in manual mode"@,
        SessionErrorView::Finalizing =>
            "Cannot start new session while previous session is finalizing"@,
        SessionErrorView::StillRecording(id) => "Cannot start new session: existing session "@ + id
            + " is still recording"@,
        SessionErrorView::NothingToStop => "No active manual session to stop"@,
        SessionErrorView::NothingToCancel => "No manual session to cancel"@,
        SessionErrorView::ProcessorUnavailable =>
            "Audio processor unavailable for manual transcription"@,
        SessionErrorView::AlreadyStarted =>
            "Failed to take ownership of receivers for processors"@,
    }
}

impl SessionError {
    /// The text of the error.
    pub fn to_string(&self) -> (r: String)
        ensures
            r@ == session_error_text(self@),
    {
        match self {
            SessionError::StartOutsideManualMode =>
                "Cannot start manual session when not in manual mode".to_owned(),
            SessionError::StopOutsideManualMode =>
                "Cannot stop manual session when not in manual mode".to_owned(),
            SessionError::CancelOutsideManualMode =>
                "Cannot cancel manual session when not in manual mode".to_owned(),
            SessionError::Finalizing =>
                "Cannot start new session while previous session is finalizing".to_owned(),
            SessionError::StillRecording(id) => concat3(
                "Cannot start new session: existing session ",
                id.as_str(),
                " is still recording",
            ),
            SessionError::NothingToStop => "No active manual session to stop".to_owned(),
            SessionError::NothingToCancel => "No manual session to cancel".to_owned(),
            SessionError::ProcessorUnavailable =>
                "Audio processor unavailable for manual transcription".to_owned(),
            SessionError::AlreadyStarted =>
                "Failed to take ownership of receivers for processors".to_owned(),
        }
    }
}

/// A session's duration is in whole seconds: as many as have passed, and none
/// that has not.
pub proof fn law_durations_are_whole_seconds(from: Instant, to: Instant)
    requires
        from.nanos <= to.nanos,
    ensures
        ({
            let secs = seconds_between(from, to);
            secs * 1_000_000_000 <= to.nanos - from.nanos < (secs + 1) * 1_000_000_000
                || to.nanos - from.nanos >= 0x1_0000_0000 * 1_000_000_000
        }),
{
}

/// A session keeps its id and its start when it is moved into processing, and is
/// then processed and not recording; the time shown counts from the move.
pub proof fn law_processing_keeps_the_session(s: SessionView, moved: Instant, now: Instant)
    ensures
        ({
            let p = processing_of(s, moved);
            let status = processing_status(p, now);
            &&& p.session.session_id == s.session_id
            &&& p.session.start_time == s.start_time
            &&& !p.session.is_recording && p.session.is_processing
            &&& status.session_id == s.session_id
            &&& !status.is_recording && status.is_processing
            &&& status.duration_secs == seconds_between(moved, now)
            &&& session_status(s, now).duration_secs == seconds_between(s.start_time, now)
            &&& session_status(s, now).session_id == s.session_id
            &&& session_status(s, now).is_recording == s.is_recording
            &&& session_status(s, now).is_processing == s.is_processing
        }),
{
}

proof fn lemma_decimals_differ(a: nat, b: nat)
    requires
        a != b,
    ensures
        decimal(a) != decimal(b),
    decreases a,
{
    lemma_decimal_in_digits(a / 10);
    lemma_decimal_in_digits(b / 10);
    if a >= 10 && b >= 10 {
        assert(decimal(a).drop_last() =~= decimal(a / 10));
        assert(decimal(b).drop_last() =~= decimal(b / 10));
        if a / 10 != b / 10 {
            lemma_decimals_differ(a / 10, b / 10);
        } else {
            assert(decimal(a).last() != decimal(b).last());
        }
    } else if a < 10 && b < 10 {
        assert(decimal(a)[0] != decimal(b)[0]);
    } else if a < 10 {
        assert(decimal(a).len() == 1);
        assert(decimal(b).len() >= 2);
    } else {
        assert(decimal(b).len() == 1);
        assert(decimal(a).len() >= 2);
    }
}

/// A new session is recording, from now on, and sessions made at different times
/// have different ids.
pub proof fn law_new_sessions_are_told_apart(a: i64, b: i64, now: Instant, later: Instant)
    ensures
        ({
            let x = new_session(a, now);
            &&& x.is_recording && !x.is_processing && x.start_time == now
            &&& a >= 0 && b >= 0 && a != b ==> x.session_id != new_session(b, later).session_id
        }),
{
    let p = "session_"@;
    if a >= 0 && b >= 0 && a != b {
        lemma_decimals_differ(a as nat, b as nat);
        let x = signed_decimal(a as int);
        let y = signed_decimal(b as int);
        assert((p + x).skip(p.len() as int) =~= x);
        assert((p + y).skip(p.len() as int) =~= y);
    }
}

} // verus!
