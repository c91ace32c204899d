//! The transcription coordinator: the state that the commands of an
//! application act on, and what each command makes happen.
//!
//! Streams, channels, timers and tasks live outside. A command changes the
//! state here and hands back, in order, the actions to be carried out.

use vstd::prelude::*;

use crate::backend::{display_name, BackendType};
use crate::feedback::FeedbackEvent;
use crate::real_time_transcriber::sessions::{
    new_session, processing_of, processing_status, session_status, ManualProcessingSession,
    ManualSession, ManualSessionStatus, ProcessingView, SessionError, SessionErrorView,
    SessionView,
};
use crate::real_time_transcriber::{named_mode, numbered_mode, TranscriptionMode};
use crate::state::{
    ready_status, BackendStateModel, BackendStatus, BackendStatusState, ProcessingState,
    StatusModel,
};
use crate::text::strings::{concat3, opt_view, str_eq};
use crate::time::{nanos_between, Instant, NANOS_PER_MILLI};

verus! {

/// Something to be carried out on behalf of a command.
#[derive(Debug, Clone, Copy, PartialEq, Eq, Structural)]
pub enum SessionAction {
    /// Empty the manual buffer and tag the audio with the new session's id.
    BeginProcessorSession,
    /// Empty the transcript and the transcript on display, and request a reset.
    ClearTranscripts,
    /// Start the audio stream.
    StartStream,
    /// Stop the audio stream.
    StopStream,
    /// Resume the audio stream.
    ResumeStream,
    /// Raise or clear the recording flag.
    SetRecording(bool),
    /// Give feedback.
    Play(FeedbackEvent),
    /// Tag the audio with no session.
    ClearSessionId,
    /// Tag the audio with the realtime session.
    SetRealtimeSessionId,
    /// Reset voice activity detection.
    ResetVad,
    /// Empty the manual buffer.
    ClearManualBuffer,
    /// Show that nobody is speaking.
    ShowNotSpeaking,
    /// Show a processing state.
    SetProcessingState(ProcessingState),
    /// Wait this many milliseconds.
    Wait(u64),
}

/// A step of shutting down, in the order in which they are taken.
#[derive(Debug, Clone, Copy, PartialEq, Eq, Structural)]
pub enum ShutdownStep {
    ClearRunning,
    ClearRecording,
    StopBackendManager,
    StopCapture,
    AwaitRecordingMonitor,
    AwaitSessionProcessor,
    AwaitAudioProcessor,
    AbortStreaming,
    AwaitTranscription,
    AwaitBackendLoad,
    AwaitBackendManager,
    ReleaseBackend,
}

/// Commands for manual session management.
#[derive(Debug, Clone, Copy, PartialEq, Eq, Structural)]
pub enum ManualSessionCommand {
    StartSession,
    StopSession,
    CancelSession,
    SwitchMode(TranscriptionMode),
}

/// How long, in milliseconds, audio in flight is waited for when a session
/// ends.
pub const DRAIN_TIMEOUT_MILLIS: u64 = 2000;

/// How long, in milliseconds, to wait between looks at audio in flight.
pub const DRAIN_POLL_MILLIS: u64 = 10;

/// How long, in milliseconds, a completed session stays on display.
pub const COMPLETED_DISPLAY_MILLIS: u64 = 2000;

/// How long, in milliseconds, a switch to real-time mode waits before the last
/// manual session is transcribed.
pub const SWITCH_DELAY_MILLIS: u64 = 100;

/// How long, in milliseconds, each task is waited for at shutdown.
pub const SHUTDOWN_TIMEOUT_MILLIS: u64 = 3000;

/// The state of a coordinator.
#[verifier::ext_equal]
pub struct TranscriberModel {
    pub running: bool,
    pub recording: bool,
    pub mode: TranscriptionMode,
    pub current: Option<SessionView>,
    pub processing: Option<ProcessingView>,
    pub finalizing: bool,
    pub clear_on_new_session: bool,
    /// There is an audio processor.
    pub processor: bool,
    /// The worker tasks were started.
    pub started: bool,
}

/// Main transcription coordinator.
#[derive(Debug)]
pub struct RealTimeTranscriber {
    running: bool,
    recording: bool,
    mode: u8,
    current: Option<ManualSession>,
    processing: Option<ManualProcessingSession>,
    finalizing: bool,
    clear_on_new_session: bool,
    processor: bool,
    started: bool,
}

/// What an optional session holds.
pub open spec fn session_view(s: Option<ManualSession>) -> Option<SessionView> {
    match s {
        Some(t) => Some(t@),
        None => None,
    }
}

/// What an optional session in processing holds.
pub open spec fn processing_view(s: Option<ManualProcessingSession>) -> Option<ProcessingView> {
    match s {
        Some(t) => Some(t@),
        None => None,
    }
}

impl View for RealTimeTranscriber {
    type V = TranscriberModel;

    closed spec fn view(&self) -> TranscriberModel {
        TranscriberModel {
            running: self.running,
            recording: self.recording,
            mode: numbered_mode(self.mode),
            current: session_view(self.current),
            processing: processing_view(self.processing),
            finalizing: self.finalizing,
            clear_on_new_session: self.clear_on_new_session,
            processor: self.processor,
            started: self.started,
        }
    }
}

/// What holds of a coordinator at all times: a session in processing does not
/// record.
pub open spec fn transcriber_invariant(m: TranscriberModel) -> bool {
    m.processing is Some ==> !m.processing->0.session.is_recording
}

/// Why `m` refuses to start a session, if it does.
pub open spec fn start_refusal(m: TranscriberModel) -> Option<SessionErrorView> {
    if m.mode != TranscriptionMode::Manual {
        Some(SessionErrorView::StartOutsideManualMode)
    } else if m.finalizing {
        Some(SessionErrorView::Finalizing)
    } else {
        match m.current {
            Some(existing) if existing.is_recording && m.recording => Some(
                SessionErrorView::StillRecording(existing.session_id),
            ),
            _ => None,
        }
    }
}

/// `m` after `session` was started.
pub open spec fn after_start(m: TranscriberModel, session: SessionView) -> TranscriberModel {
    TranscriberModel { current: Some(session), recording: true, ..m }
}

/// What starting a session makes happen. The stream starts before the flag is
/// raised, so that no audio is dropped.
pub open spec fn start_actions(m: TranscriberModel) -> Seq<SessionAction> {
    (if m.processor {
        seq![SessionAction::BeginProcessorSession]
    } else {
        seq![]
    }) + (if m.clear_on_new_session {
        seq![SessionAction::ClearTranscripts]
    } else {
        seq![]
    }) + seq![
        SessionAction::StartStream,
        SessionAction::SetRecording(true),
        SessionAction::Play(FeedbackEvent::SessionStart),
    ]
}

/// `m` with its current session, if any, moved into processing at `now`.
pub open spec fn with_session_moved(m: TranscriberModel, now: Instant) -> TranscriberModel {
    match m.current {
        Some(session) => TranscriberModel {
            current: None,
            processing: Some(processing_of(session, now)),
            ..m
        },
        None => m,
    }
}

/// The id of the session in processing, if any.
pub open spec fn processing_id(m: TranscriberModel) -> Option<Seq<char>> {
    match m.processing {
        Some(p) => Some(p.session.session_id),
        None => None,
    }
}

/// Why `m` refuses to stop a session, if it does. Without an audio processor
/// the session is given up only after it was stopped.
pub open spec fn stop_refusal(m: TranscriberModel) -> Option<SessionErrorView> {
    if m.mode != TranscriptionMode::Manual {
        Some(SessionErrorView::StopOutsideManualMode)
    } else if m.current is None && m.processing is None {
        Some(SessionErrorView::NothingToStop)
    } else if !m.processor {
        Some(SessionErrorView::ProcessorUnavailable)
    } else {
        None
    }
}

/// Whether a session is there to be stopped.
pub open spec fn can_stop(m: TranscriberModel) -> bool {
    m.mode == TranscriptionMode::Manual && (m.current is Some || m.processing is Some)
}

/// `m` with the session `id`, if it is in processing, marked as failed.
pub open spec fn with_session_failed(m: TranscriberModel, id: Seq<char>) -> TranscriberModel {
    match m.processing {
        Some(p) if p.session.session_id == id => TranscriberModel {
            processing: Some(
                ProcessingView {
                    session: SessionView { is_processing: false, ..p.session },
                    ..p
                },
            ),
            ..m
        },
        _ => m,
    }
}

/// `m` after a session was asked to stop: the current one moves into
/// processing; with no processor to hand it to, it has failed.
pub open spec fn after_stop(m: TranscriberModel, now: Instant) -> TranscriberModel {
    if can_stop(m) {
        let moved = with_session_moved(m, now);
        if m.processor {
            moved
        } else {
            with_session_failed(moved, processing_id(moved)->0)
        }
    } else {
        m
    }
}

/// `m` without the session `id` in processing, if that is the one.
pub open spec fn with_session_cleared(m: TranscriberModel, id: Seq<char>) -> TranscriberModel {
    if processing_id(m) == Some(id) {
        TranscriberModel { processing: None, ..m }
    } else {
        m
    }
}

/// Why `m` refuses to cancel a session, if it does.
pub open spec fn cancel_refusal(m: TranscriberModel) -> Option<SessionErrorView> {
    if m.mode != TranscriptionMode::Manual {
        Some(SessionErrorView::CancelOutsideManualMode)
    } else if m.current is None && m.processing is None {
        Some(SessionErrorView::NothingToCancel)
    } else {
        None
    }
}

/// `m` after its sessions were cancelled.
pub open spec fn after_cancel(m: TranscriberModel) -> TranscriberModel {
    TranscriberModel { current: None, processing: None, recording: false, ..m }
}

/// `m` after a switch to `mode` at `now`. A manual session that is left behind
/// moves into processing; real-time mode records at once.
pub open spec fn after_switch(
    m: TranscriberModel,
    mode: TranscriptionMode,
    now: Instant,
) -> TranscriberModel {
    let switched = TranscriberModel { mode, ..m };
    match (m.mode, mode) {
        (TranscriptionMode::RealTime, TranscriptionMode::Manual) => TranscriberModel {
            recording: false,
            ..switched
        },
        (TranscriptionMode::Manual, TranscriptionMode::RealTime) => TranscriberModel {
            recording: true,
            ..with_session_moved(switched, now)
        },
        _ => switched,
    }
}

/// What a switch of mode makes happen.
pub open spec fn switch_actions(m: TranscriberModel, mode: TranscriptionMode) -> Seq<
    SessionAction,
> {
    match (m.mode, mode) {
        (TranscriptionMode::RealTime, TranscriptionMode::Manual) => (if m.processor {
            seq![SessionAction::ClearSessionId, SessionAction::ResetVad]
        } else {
            seq![]
        }) + seq![
            SessionAction::StopStream,
            SessionAction::SetRecording(false),
            SessionAction::ShowNotSpeaking,
        ],
        (TranscriptionMode::Manual, TranscriptionMode::RealTime) => (if m.processor {
            seq![SessionAction::ClearManualBuffer, SessionAction::ResetVad]
        } else {
            seq![]
        }) + (if m.processor && m.current is None {
            seq![SessionAction::SetRealtimeSessionId]
        } else {
            seq![]
        }) + seq![
            SessionAction::StopStream,
            SessionAction::StartStream,
            SessionAction::SetRecording(true),
        ],
        _ => seq![],
    }
}

/// The session that a switch of mode leaves to be transcribed.
pub open spec fn switch_transcribes(m: TranscriberModel, mode: TranscriptionMode) -> Option<
    Seq<char>,
> {
    if m.mode == TranscriptionMode::Manual && mode == TranscriptionMode::RealTime && m.processor {
        match m.current {
            Some(session) => Some(session.session_id),
            None => None,
        }
    } else {
        None
    }
}

/// What the answer to a command comes to.
pub open spec fn answer_is<T>(r: Result<T, SessionError>, refusal: Option<SessionErrorView>) -> bool {
    match (r, refusal) {
        (Ok(_), None) => true,
        (Err(e), Some(m)) => e@ == m,
        _ => false,
    }
}

/// The answer to a request to stop a session.
#[derive(Debug)]
pub struct StopOutcome {
    pub reply: Result<(), SessionError>,
    /// The session to be finalized: drained, then transcribed.
    pub finalize: Option<String>,
    pub actions: Vec<SessionAction>,
}

/// The answer to a request to switch modes.
#[derive(Debug)]
pub struct SwitchOutcome {
    /// The session to be transcribed, after [`SWITCH_DELAY_MILLIS`].
    pub transcribe: Option<String>,
    pub actions: Vec<SessionAction>,
}

/// What is said in answer to a command.
#[derive(Debug)]
pub enum CommandReply {
    Started(Result<String, SessionError>),
    Stopped(Result<(), SessionError>),
    Cancelled(Result<(), SessionError>),
    Switched,
}

/// What a command comes to.
#[derive(Debug)]
pub struct CommandOutcome {
    pub reply: CommandReply,
    pub actions: Vec<SessionAction>,
    /// The session to be finalized: drained, then transcribed.
    pub finalize: Option<String>,
    /// The session to be transcribed, after [`SWITCH_DELAY_MILLIS`].
    pub transcribe: Option<String>,
}

/// `m` after a command. `session` is the one that a start begins.
pub open spec fn after_command(
    m: TranscriberModel,
    command: ManualSessionCommand,
    session: SessionView,
    now: Instant,
) -> TranscriberModel {
    match command {
        ManualSessionCommand::StartSession => if start_refusal(m) is None {
            after_start(m, session)
        } else {
            m
        },
        ManualSessionCommand::StopSession => after_stop(m, now),
        ManualSessionCommand::CancelSession => if cancel_refusal(m) is None {
            after_cancel(m)
        } else {
            m
        },
        ManualSessionCommand::SwitchMode(mode) => after_switch(m, mode, now),
    }
}

/// What stopping a session makes happen. The flag stays up until the audio in
/// flight is drained.
pub open spec fn stop_actions(m: TranscriberModel) -> Seq<SessionAction> {
    if can_stop(m) {
        seq![SessionAction::StopStream]
    } else {
        seq![]
    }
}

/// What cancelling a session makes happen.
pub open spec fn cancel_actions() -> Seq<SessionAction> {
    seq![
        SessionAction::StopStream,
        SessionAction::SetRecording(false),
        SessionAction::Play(FeedbackEvent::SessionCancel),
    ]
}

/// What a command makes happen.
pub open spec fn command_actions(m: TranscriberModel, command: ManualSessionCommand) -> Seq<
    SessionAction,
> {
    match command {
        ManualSessionCommand::StartSession => if start_refusal(m) is None {
            start_actions(m)
        } else {
            seq![]
        },
        ManualSessionCommand::StopSession => stop_actions(m),
        ManualSessionCommand::CancelSession => if cancel_refusal(m) is None {
            cancel_actions()
        } else {
            seq![]
        },
        ManualSessionCommand::SwitchMode(mode) => switch_actions(m, mode),
    }
}

/// The session that stopping leaves to be finalized.
pub open spec fn stop_finalizes(m: TranscriberModel, now: Instant) -> Option<Seq<char>> {
    if stop_refusal(m) is None {
        processing_id(with_session_moved(m, now))
    } else {
        None
    }
}

/// Whether a reply is the one that `m` owes to a command.
pub open spec fn reply_is(
    reply: CommandReply,
    m: TranscriberModel,
    command: ManualSessionCommand,
    session: SessionView,
) -> bool {
    match (command, reply) {
        (ManualSessionCommand::StartSession, CommandReply::Started(r)) => {
            &&& answer_is(r, start_refusal(m))
            &&& r matches Ok(id) ==> id@ == session.session_id
        },
        (ManualSessionCommand::StopSession, CommandReply::Stopped(r)) => answer_is(
            r,
            stop_refusal(m),
        ),
        (ManualSessionCommand::CancelSession, CommandReply::Cancelled(r)) => answer_is(
            r,
            cancel_refusal(m),
        ),
        (ManualSessionCommand::SwitchMode(_), CommandReply::Switched) => true,
        _ => false,
    }
}

/// Whether an outcome is the one that `m` owes to a command.
pub open spec fn outcome_of(
    outcome: CommandOutcome,
    m: TranscriberModel,
    command: ManualSessionCommand,
    session: SessionView,
    now: Instant,
) -> bool {
    &&& reply_is(outcome.reply, m, command, session)
    &&& outcome.actions@ == command_actions(m, command)
    &&& opt_view(outcome.finalize) == (if command is StopSession {
        stop_finalizes(m, now)
    } else {
        None
    })
    &&& opt_view(outcome.transcribe) == (match command {
        ManualSessionCommand::SwitchMode(mode) => switch_transcribes(m, mode),
        _ => None,
    })
}

/// What a look at the audio in flight says.
#[derive(Debug, Clone, Copy, PartialEq, Eq, Structural)]
pub enum DrainStep {
    /// Everything sent has been received.
    Drained { received: usize },
    /// Time is up with this many buffers in flight.
    TimedOut { lost: usize },
    /// Look again after [`DRAIN_POLL_MILLIS`].
    Wait,
}

/// What a look at the audio in flight says: drained once all that was sent has
/// been received, given up after the timeout.
pub open spec fn drain_check(sent: usize, received: usize, begun: Instant, now: Instant) -> DrainStep {
    if received >= sent {
        DrainStep::Drained { received }
    } else if nanos_between(begun, now) > DRAIN_TIMEOUT_MILLIS * NANOS_PER_MILLI {
        DrainStep::TimedOut { lost: (sent - received) as usize }
    } else {
        DrainStep::Wait
    }
}

/// Looks at the audio in flight.
pub fn drain_step(sent: usize, received: usize, begun: Instant, now: Instant) -> (r: DrainStep)
    ensures
        r == drain_check(sent, received, begun, now),
{
    if received >= sent {
        DrainStep::Drained { received }
    } else if now.duration_since(begun) > DRAIN_TIMEOUT_MILLIS * NANOS_PER_MILLI {
        DrainStep::TimedOut { lost: sent - received }
    } else {
        DrainStep::Wait
    }
}

/// Draining comes to an end: once the timeout has passed no look says to wait.
pub proof fn law_drain_ends(sent: usize, received: usize, begun: Instant, now: Instant)
    requires
        nanos_between(begun, now) > DRAIN_TIMEOUT_MILLIS * NANOS_PER_MILLI,
    ensures
        drain_check(sent, received, begun, now) != DrainStep::Wait,
        drain_check(sent, received, begun, now) matches DrainStep::TimedOut { lost } ==> lost
            == sent - received,
{
}

/// One tick of the recording monitor: whether the device is to be checked. A
/// tick on which the flag has changed only notes the change.
pub fn monitor_tick(last_recording: &mut bool, recording: bool) -> (r: bool)
    ensures
        *final(last_recording) == recording,
        r == (recording && *old(last_recording)),
{
    if recording != *last_recording {
        *last_recording = recording;
        false
    } else {
        recording
    }
}

/// The status of a backend that is being loaded for the first time.
pub fn initial_backend_status<F>(backend: BackendType, model: String) -> (r: BackendStatus<F>)
    ensures
        r@ == (StatusModel {
            state: BackendStateModel::Loading("Initializing..."@),
            ..ready_status::<F>(display_name(backend), model@)
        }),
{
    let mut status = BackendStatus::new(backend.display_name(), model);
    status.state = BackendStatusState::Loading("Initializing...".to_owned());
    status
}

/// Notes the outcome of the first load in the status, and gives the processing
/// state to be shown.
pub fn backend_load_finished<F>(
    status: &mut BackendStatus<F>,
    result: Result<(), String>,
    now: Instant,
) -> (r: ProcessingState)
    ensures
        match result {
            Ok(_) => r == ProcessingState::Idle && final(status)@ == (StatusModel {
                state: BackendStateModel::Ready,
                ..old(status)@
            }),
            Err(e) => r == ProcessingState::Error && final(status)@ == (StatusModel {
                state: BackendStateModel::Error(e@),
                error_time: Some(now),
                ..old(status)@
            }),
        },
{
    match result {
        Ok(_) => {
            status.state = BackendStatusState::Ready;
            ProcessingState::Idle
        },
        Err(e) => {
            status.state = BackendStatusState::Error(e);
            status.error_time = Some(now);
            ProcessingState::Error
        },
    }
}

/// The text of the error that the detector's model is missing.
pub fn silero_missing_text(path: &str) -> (r: String)
    ensures
        r@ == "Silero VAD model not found at "@ + path@
            + ". Please run the application again to download it."@,
{
    concat3(
        "Silero VAD model not found at ",
        path,
        ". Please run the application again to download it.",
    )
}

impl RealTimeTranscriber {
    /// The coordinator's invariant.
    pub open spec fn wf(self) -> bool {
        transcriber_invariant(self@)
    }

    /// A coordinator in the mode named, running and not recording.
    pub fn new(transcription_mode: &str, clear_on_new_session: bool) -> (r: Self)
        ensures
            r.wf(),
            r@ == (TranscriberModel {
                running: true,
                recording: false,
                mode: named_mode(transcription_mode@),
                current: None,
                processing: None,
                finalizing: false,
                clear_on_new_session,
                processor: false,
                started: false,
            }),
    {
        let mode: TranscriptionMode = TranscriptionMode::from(transcription_mode);
        RealTimeTranscriber {
            running: true,
            recording: false,
            mode: mode.as_u8(),
            current: None,
            processing: None,
            finalizing: false,
            clear_on_new_session,
            processor: false,
            started: false,
        }
    }

    /// Prepares a start: the application runs and does not record.
    pub fn begin_start(&mut self)
        requires
            old(self).wf(),
        ensures
            final(self).wf(),
            final(self)@ == (TranscriberModel { running: true, recording: false, ..old(self)@ }),
    {
        self.recording = false;
        self.running = true;
    }

    /// Completes a start, once audio capture is going: there is an audio
    /// processor, and the worker tasks are started, which can happen once.
    pub fn start(&mut self) -> (r: Result<(), SessionError>)
        requires
            old(self).wf(),
        ensures
            final(self).wf(),
            final(self)@ == (TranscriberModel { processor: true, started: true, ..old(self)@ }),
            answer_is(
                r,
                if old(self)@.started {
                    Some(SessionErrorView::AlreadyStarted)
                } else {
                    None
                },
            ),
    {
        self.processor = true;
        if self.started {
            Err(SessionError::AlreadyStarted)
        } else {
            self.started = true;
            Ok(())
        }
    }

    /// Takes over the recording flag as it stands: capture clears it when the
    /// manual buffer overflows.
    pub fn observe_recording(&mut self, recording: bool)
        requires
            old(self).wf(),
        ensures
            final(self).wf(),
            final(self)@ == (TranscriberModel { recording, ..old(self)@ }),
    {
        self.recording = recording;
    }

    /// Starts a manual session, named by the time of day.
    pub fn start_manual_session(&mut self, now: Instant) -> (r: (
        Result<String, SessionError>,
        Vec<SessionAction>,
    ))
        requires
            old(self).wf(),
        ensures
            final(self).wf(),
            answer_is(r.0, start_refusal(old(self)@)),
            start_refusal(old(self)@) is Some ==> final(self)@ == old(self)@ && r.1@.len() == 0,
            start_refusal(old(self)@) is None ==> exists|micros: i64|
                {
                    let session = #[trigger] new_session(micros, now);
                    &&& final(self)@ == after_start(old(self)@, session)
                    &&& r.0->Ok_0@ == session.session_id
                    &&& r.1@ == start_actions(old(self)@)
                },
    {
        self.start_session(ManualSession::new(now))
    }

    /// Starts the given manual session, unless it is refused: outside manual
    /// mode, while a session is finalizing, or while one is recording. A
    /// session whose recording has stopped by itself gives way.
    pub fn start_session(&mut self, session: ManualSession) -> (r: (
        Result<String, SessionError>,
        Vec<SessionAction>,
    ))
        requires
            old(self).wf(),
        ensures
            final(self).wf(),
            answer_is(r.0, start_refusal(old(self)@)),
            start_refusal(old(self)@) is Some ==> final(self)@ == old(self)@ && r.1@.len() == 0,
            start_refusal(old(self)@) is None ==> {
                &&& final(self)@ == after_start(old(self)@, session@)
                &&& r.0->Ok_0@ == session@.session_id
                &&& r.1@ == start_actions(old(self)@)
            },
    {
        if self.get_transcription_mode() != TranscriptionMode::Manual {
            return (Err(SessionError::StartOutsideManualMode), Vec::new());
        }
        if self.finalizing {
            return (Err(SessionError::Finalizing), Vec::new());
        }
        if let Some(existing) = &self.current {
            if existing.is_recording && self.recording {
                return (
                    Err(SessionError::StillRecording(existing.session_id.clone())),
                    Vec::new(),
                );
            }
        }
        let session_id = session.session_id.clone();
        self.current = Some(session);
        self.recording = true;
        let mut actions: Vec<SessionAction> = Vec::new();
        if self.processor {
            actions.push(SessionAction::BeginProcessorSession);
        }
        if self.clear_on_new_session {
            actions.push(SessionAction::ClearTranscripts);
        }
        actions.push(SessionAction::StartStream);
        actions.push(SessionAction::SetRecording(true));
        actions.push(SessionAction::Play(FeedbackEvent::SessionStart));
        assert(actions@ =~= start_actions(old(self)@));
        (Ok(session_id), actions)
    }

    /// Moves the current session, if any, into processing, and gives its id.
    pub fn move_session_to_processing(&mut self, now: Instant) -> (r: Option<String>)
        requires
            old(self).wf(),
        ensures
            final(self).wf(),
            final(self)@ == with_session_moved(old(self)@, now),
            match old(self)@.current {
                Some(session) => r is Some && r->0@ == session.session_id,
                None => r is None,
            },
    {
        match self.current.take() {
            Some(session) => {
                let session_id = session.session_id.clone();
                self.processing = Some(ManualProcessingSession::new(session, now));
                Some(session_id)
            },
            None => None,
        }
    }

    /// The id of the session in processing, if any.
    pub fn get_processing_session_id(&self) -> (r: Option<String>)
        ensures
            opt_view(r) == processing_id(self@),
    {
        match &self.processing {
            Some(p) => Some(p.session.session_id.clone()),
            None => None,
        }
    }

    /// Clears the session in processing if it is the one named; tells whether
    /// it was.
    pub fn clear_processing_session_if_matches(&mut self, session_id: &str) -> (r: bool)
        requires
            old(self).wf(),
        ensures
            final(self).wf(),
            r == (processing_id(old(self)@) == Some(session_id@)),
            final(self)@ == with_session_cleared(old(self)@, session_id@),
    {
        let matches = match &self.processing {
            Some(p) => str_eq(p.session_id(), session_id),
            None => false,
        };
        if matches {
            self.processing = None;
        }
        matches
    }

    /// Marks the session in processing as failed if it is the one named.
    pub fn mark_processing_session_failed(&mut self, session_id: &str)
        requires
            old(self).wf(),
        ensures
            final(self).wf(),
            final(self)@ == with_session_failed(old(self)@, session_id@),
    {
        match self.processing.take() {
            Some(p) => {
                let mut p = p;
                if str_eq(p.session_id(), session_id) {
                    p.session.is_processing = false;
                }
                self.processing = Some(p);
            },
            None => {},
        }
    }

    /// Stops the current manual session, or the one already in processing:
    /// the stream is stopped at once, the recording flag stays up until the
    /// audio in flight has been drained.
    pub fn stop_manual_session(&mut self, now: Instant) -> (r: StopOutcome)
        requires
            old(self).wf(),
        ensures
            final(self).wf(),
            answer_is(r.reply, stop_refusal(old(self)@)),
            final(self)@ == after_stop(old(self)@, now),
            r.actions@ == stop_actions(old(self)@),
            opt_view(r.finalize) == stop_finalizes(old(self)@, now),
    {
        let mut actions: Vec<SessionAction> = Vec::new();
        if self.get_transcription_mode() != TranscriptionMode::Manual {
            return StopOutcome {
                reply: Err(SessionError::StopOutsideManualMode),
                finalize: None,
                actions,
            };
        }
        let moved = self.move_session_to_processing(now);
        let found = match moved {
            Some(id) => Some(id),
            None => self.get_processing_session_id(),
        };
        match found {
            None => StopOutcome {
                reply: Err(SessionError::NothingToStop),
                finalize: None,
                actions,
            },
            Some(id) => {
                actions.push(SessionAction::StopStream);
                if self.processor {
                    StopOutcome { reply: Ok(()), finalize: Some(id), actions }
                } else {
                    self.mark_processing_session_failed(id.as_str());
                    StopOutcome {
                        reply: Err(SessionError::ProcessorUnavailable),
                        finalize: None,
                        actions,
                    }
                }
            },
        }
    }

    /// Begins finalizing a session: until its audio is drained no session can
    /// be started.
    pub fn begin_finalizing(&mut self)
        requires
            old(self).wf(),
        ensures
            final(self).wf(),
            final(self)@ == (TranscriberModel { finalizing: true, ..old(self)@ }),
    {
        self.finalizing = true;
    }

    /// The audio of a session is drained, or given up: recording ends, and a
    /// new session may start while this one is transcribed.
    pub fn drain_finished(&mut self) -> (r: Vec<SessionAction>)
        requires
            old(self).wf(),
        ensures
            final(self).wf(),
            final(self)@ == (TranscriberModel {
                recording: false,
                finalizing: false,
                ..old(self)@
            }),
            r@ == seq![
                SessionAction::SetRecording(false),
                SessionAction::SetProcessingState(ProcessingState::Transcribing),
            ],
    {
        self.recording = false;
        self.finalizing = false;
        let mut actions: Vec<SessionAction> = Vec::new();
        actions.push(SessionAction::SetRecording(false));
        actions.push(SessionAction::SetProcessingState(ProcessingState::Transcribing));
        assert(actions@ =~= seq![
            SessionAction::SetRecording(false),
            SessionAction::SetProcessingState(ProcessingState::Transcribing),
        ]);
        actions
    }

    /// The recording of session `session_id` was handed over for
    /// transcription, or could not be.
    pub fn finalize_finished(&mut self, session_id: &str, handed_over: bool) -> (r: Vec<
        SessionAction,
    >)
        requires
            old(self).wf(),
        ensures
            final(self).wf(),
            final(self)@ == (if handed_over {
                with_session_cleared(old(self)@, session_id@)
            } else {
                with_session_failed(old(self)@, session_id@)
            }),
            r@ == (if !handed_over {
                seq![SessionAction::SetProcessingState(ProcessingState::Error)]
            } else if processing_id(old(self)@) == Some(session_id@) {
                seq![
                    SessionAction::Play(FeedbackEvent::SessionComplete),
                    SessionAction::SetProcessingState(ProcessingState::Completed),
                    SessionAction::Wait(COMPLETED_DISPLAY_MILLIS),
                    SessionAction::SetProcessingState(ProcessingState::Idle),
                ]
            } else {
                seq![]
            }),
    {
        let mut actions: Vec<SessionAction> = Vec::new();
        if !handed_over {
            self.mark_processing_session_failed(session_id);
            actions.push(SessionAction::SetProcessingState(ProcessingState::Error));
        } else if self.clear_processing_session_if_matches(session_id) {
            actions.push(SessionAction::Play(FeedbackEvent::SessionComplete));
            actions.push(SessionAction::SetProcessingState(ProcessingState::Completed));
            actions.push(SessionAction::Wait(COMPLETED_DISPLAY_MILLIS));
            actions.push(SessionAction::SetProcessingState(ProcessingState::Idle));
            assert(actions@ =~= seq![
                SessionAction::Play(FeedbackEvent::SessionComplete),
                SessionAction::SetProcessingState(ProcessingState::Completed),
                SessionAction::Wait(COMPLETED_DISPLAY_MILLIS),
                SessionAction::SetProcessingState(ProcessingState::Idle),
            ]);
        }
        actions
    }

    /// Cancels the current session and the one in processing.
    pub fn cancel_manual_session(&mut self) -> (r: (Result<(), SessionError>, Vec<SessionAction>))
        requires
            old(self).wf(),
        ensures
            final(self).wf(),
            answer_is(r.0, cancel_refusal(old(self)@)),
            cancel_refusal(old(self)@) is Some ==> final(self)@ == old(self)@ && r.1@.len() == 0,
            cancel_refusal(old(self)@) is None ==> {
                &&& final(self)@ == after_cancel(old(self)@)
                &&& r.1@ == cancel_actions()
            },
    {
        if self.get_transcription_mode() != TranscriptionMode::Manual {
            return (Err(SessionError::CancelOutsideManualMode), Vec::new());
        }
        let current = self.current.take();
        let processing = self.processing.take();
        if current.is_none() && processing.is_none() {
            return (Err(SessionError::NothingToCancel), Vec::new());
        }
        self.recording = false;
        let mut actions: Vec<SessionAction> = Vec::new();
        actions.push(SessionAction::StopStream);
        actions.push(SessionAction::SetRecording(false));
        actions.push(SessionAction::Play(FeedbackEvent::SessionCancel));
        assert(actions@ =~= seq![
            SessionAction::StopStream,
            SessionAction::SetRecording(false),
            SessionAction::Play(FeedbackEvent::SessionCancel),
        ]);
        (Ok(()), actions)
    }

    /// Switches modes. Into manual mode, real-time recording stops. Out of it,
    /// the current session is left to be transcribed and real-time recording
    /// begins.
    pub fn switch_mode(&mut self, new_mode: TranscriptionMode, now: Instant) -> (r: SwitchOutcome)
        requires
            old(self).wf(),
        ensures
            final(self).wf(),
            final(self)@ == after_switch(old(self)@, new_mode, now),
            r.actions@ == switch_actions(old(self)@, new_mode),
            opt_view(r.transcribe) == switch_transcribes(old(self)@, new_mode),
    {
        let old_mode = self.get_transcription_mode();
        self.mode = new_mode.as_u8();
        let mut actions: Vec<SessionAction> = Vec::new();
        let mut transcribe: Option<String> = None;
        if old_mode == TranscriptionMode::RealTime && new_mode == TranscriptionMode::Manual {
            if self.processor {
                actions.push(SessionAction::ClearSessionId);
                actions.push(SessionAction::ResetVad);
            }
            actions.push(SessionAction::StopStream);
            actions.push(SessionAction::SetRecording(false));
            actions.push(SessionAction::ShowNotSpeaking);
            self.recording = false;
        } else if old_mode == TranscriptionMode::Manual && new_mode == TranscriptionMode::RealTime {
            let moved = self.move_session_to_processing(now);
            if self.processor {
                actions.push(SessionAction::ClearManualBuffer);
                actions.push(SessionAction::ResetVad);
                match moved {
                    Some(id) => {
                        transcribe = Some(id);
                    },
                    None => {
                        actions.push(SessionAction::SetRealtimeSessionId);
                    },
                }
            }
            actions.push(SessionAction::StopStream);
            actions.push(SessionAction::StartStream);
            actions.push(SessionAction::SetRecording(true));
            self.recording = true;
        }
        assert(actions@ =~= switch_actions(old(self)@, new_mode));
        SwitchOutcome { transcribe, actions }
    }

    /// The session that a switch of mode left behind was handed over for
    /// transcription, or could not be; either way the audio now belongs to the
    /// realtime session.
    pub fn switch_finished(&mut self, session_id: &str, handed_over: bool) -> (r: Vec<
        SessionAction,
    >)
        requires
            old(self).wf(),
        ensures
            final(self).wf(),
            final(self)@ == (if handed_over {
                with_session_cleared(old(self)@, session_id@)
            } else {
                with_session_failed(old(self)@, session_id@)
            }),
            r@ == seq![SessionAction::SetRealtimeSessionId],
    {
        if handed_over {
            self.clear_processing_session_if_matches(session_id);
        } else {
            self.mark_processing_session_failed(session_id);
        }
        let mut actions: Vec<SessionAction> = Vec::new();
        actions.push(SessionAction::SetRealtimeSessionId);
        actions
    }

    /// Carries out a session command at `now`. A session that it starts is
    /// named by the time of day.
    pub fn handle_command(&mut self, command: ManualSessionCommand, now: Instant) -> (r:
        CommandOutcome)
        requires
            old(self).wf(),
        ensures
            final(self).wf(),
            exists|micros: i64|
                {
                    let session = #[trigger] new_session(micros, now);
                    &&& final(self)@ == after_command(old(self)@, command, session, now)
                    &&& outcome_of(r, old(self)@, command, session, now)
                },
    {
        let session = ManualSession::new(now);
        self.handle_command_with(command, session, now)
    }

    /// Carries out a session command at `now`. `session` is the one that a
    /// start begins.
    pub fn handle_command_with(
        &mut self,
        command: ManualSessionCommand,
        session: ManualSession,
        now: Instant,
    ) -> (r: CommandOutcome)
        requires
            old(self).wf(),
        ensures
            final(self).wf(),
            final(self)@ == after_command(old(self)@, command, session@, now),
            outcome_of(r, old(self)@, command, session@, now),
    {
        match command {
            ManualSessionCommand::StartSession => {
                let (result, actions) = self.start_session(session);
                assert(actions@ =~= command_actions(old(self)@, command));
                CommandOutcome {
                    reply: CommandReply::Started(result),
                    actions,
                    finalize: None,
                    transcribe: None,
                }
            },
            ManualSessionCommand::StopSession => {
                let stopped = self.stop_manual_session(now);
                CommandOutcome {
                    reply: CommandReply::Stopped(stopped.reply),
                    actions: stopped.actions,
                    finalize: stopped.finalize,
                    transcribe: None,
                }
            },
            ManualSessionCommand::CancelSession => {
                let (result, actions) = self.cancel_manual_session();
                assert(actions@ =~= command_actions(old(self)@, command));
                CommandOutcome {
                    reply: CommandReply::Cancelled(result),
                    actions,
                    finalize: None,
                    transcribe: None,
                }
            },
            ManualSessionCommand::SwitchMode(mode) => {
                let switched = self.switch_mode(mode, now);
                CommandOutcome {
                    reply: CommandReply::Switched,
                    actions: switched.actions,
                    finalize: None,
                    transcribe: switched.transcribe,
                }
            },
        }
    }

    /// Stops recording.
    pub fn stop(&mut self) -> (r: Vec<SessionAction>)
        requires
            old(self).wf(),
        ensures
            final(self).wf(),
            final(self)@ == (TranscriberModel { recording: false, ..old(self)@ }),
            r@ == seq![SessionAction::StopStream, SessionAction::SetRecording(false)],
    {
        self.recording = false;
        let mut actions: Vec<SessionAction> = Vec::new();
        actions.push(SessionAction::StopStream);
        actions.push(SessionAction::SetRecording(false));
        assert(actions@ =~= seq![SessionAction::StopStream, SessionAction::SetRecording(false)]);
        actions
    }

    /// Resumes recording.
    pub fn resume(&mut self) -> (r: Vec<SessionAction>)
        requires
            old(self).wf(),
        ensures
            final(self).wf(),
            final(self)@ == (TranscriberModel { recording: true, ..old(self)@ }),
            r@ == seq![SessionAction::ResumeStream, SessionAction::SetRecording(true)],
    {
        self.recording = true;
        let mut actions: Vec<SessionAction> = Vec::new();
        actions.push(SessionAction::ResumeStream);
        actions.push(SessionAction::SetRecording(true));
        assert(actions@ =~= seq![SessionAction::ResumeStream, SessionAction::SetRecording(true)]);
        actions
    }

    /// Toggles recording. When it starts the stream starts before the flag is
    /// raised; when it stops the stream stops before the flag is cleared.
    pub fn toggle_recording(&mut self) -> (r: Vec<SessionAction>)
        requires
            old(self).wf(),
        ensures
            final(self).wf(),
            final(self)@ == (TranscriberModel { recording: !old(self)@.recording, ..old(self)@ }),
            r@ == (if old(self)@.recording {
                seq![
                    SessionAction::StopStream,
                    SessionAction::SetRecording(false),
                    SessionAction::Play(FeedbackEvent::RecordStop),
                ]
            } else {
                seq![
                    SessionAction::StartStream,
                    SessionAction::SetRecording(true),
                    SessionAction::Play(FeedbackEvent::RecordStart),
                ]
            }),
    {
        let mut actions: Vec<SessionAction> = Vec::new();
        if self.recording {
            actions.push(SessionAction::StopStream);
            actions.push(SessionAction::SetRecording(false));
            actions.push(SessionAction::Play(FeedbackEvent::RecordStop));
            assert(actions@ =~= seq![
                SessionAction::StopStream,
                SessionAction::SetRecording(false),
                SessionAction::Play(FeedbackEvent::RecordStop),
            ]);
            self.recording = false;
        } else {
            actions.push(SessionAction::StartStream);
            actions.push(SessionAction::SetRecording(true));
            actions.push(SessionAction::Play(FeedbackEvent::RecordStart));
            assert(actions@ =~= seq![
                SessionAction::StartStream,
                SessionAction::SetRecording(true),
                SessionAction::Play(FeedbackEvent::RecordStart),
            ]);
            self.recording = true;
        }
        actions
    }

    /// Shuts everything down, in the order of the steps handed back. Each task
    /// awaited is given [`SHUTDOWN_TIMEOUT_MILLIS`].
    pub fn shutdown(&mut self) -> (r: Vec<ShutdownStep>)
        requires
            old(self).wf(),
        ensures
            final(self).wf(),
            final(self)@ == (TranscriberModel { running: false, recording: false, ..old(self)@ }),
            r@ == seq![
                ShutdownStep::ClearRunning,
                ShutdownStep::ClearRecording,
                ShutdownStep::StopBackendManager,
                ShutdownStep::StopCapture,
                ShutdownStep::AwaitRecordingMonitor,
                ShutdownStep::AwaitSessionProcessor,
                ShutdownStep::AwaitAudioProcessor,
                ShutdownStep::AbortStreaming,
                ShutdownStep::AwaitTranscription,
                ShutdownStep::AwaitBackendLoad,
                ShutdownStep::AwaitBackendManager,
                ShutdownStep::ReleaseBackend,
            ],
    {
        self.running = false;
        self.recording = false;
        let mut steps: Vec<ShutdownStep> = Vec::new();
        steps.push(ShutdownStep::ClearRunning);
        steps.push(ShutdownStep::ClearRecording);
        steps.push(ShutdownStep::StopBackendManager);
        steps.push(ShutdownStep::StopCapture);
        steps.push(ShutdownStep::AwaitRecordingMonitor);
        steps.push(ShutdownStep::AwaitSessionProcessor);
        steps.push(ShutdownStep::AwaitAudioProcessor);
        steps.push(ShutdownStep::AbortStreaming);
        steps.push(ShutdownStep::AwaitTranscription);
        steps.push(ShutdownStep::AwaitBackendLoad);
        steps.push(ShutdownStep::AwaitBackendManager);
        steps.push(ShutdownStep::ReleaseBackend);
        assert(steps@ =~= seq![
            ShutdownStep::ClearRunning,
            ShutdownStep::ClearRecording,
            ShutdownStep::StopBackendManager,
            ShutdownStep::StopCapture,
            ShutdownStep::AwaitRecordingMonitor,
            ShutdownStep::AwaitSessionProcessor,
            ShutdownStep::AwaitAudioProcessor,
            ShutdownStep::AbortStreaming,
            ShutdownStep::AwaitTranscription,
            ShutdownStep::AwaitBackendLoad,
            ShutdownStep::AwaitBackendManager,
            ShutdownStep::ReleaseBackend,
        ]);
        steps
    }

    /// Whether the application runs.
    pub fn get_running(&self) -> (r: bool)
        ensures
            r == self@.running,
    {
        self.running
    }

    /// Whether recording is on.
    pub fn get_recording(&self) -> (r: bool)
        ensures
            r == self@.recording,
    {
        self.recording
    }

    /// The current transcription mode.
    pub fn get_transcription_mode(&self) -> (r: TranscriptionMode)
        ensures
            r == self@.mode,
    {
        TranscriptionMode::from_u8(self.mode)
    }

    /// Sets the transcription mode, and nothing else.
    pub fn set_transcription_mode(&mut self, mode: TranscriptionMode)
        requires
            old(self).wf(),
        ensures
            final(self).wf(),
            final(self)@ == (TranscriberModel { mode, ..old(self)@ }),
    {
        self.mode = mode.as_u8();
    }

    /// The status of the current manual session, else of the one in
    /// processing; none outside manual mode.
    pub fn get_manual_session_status(&self, now: Instant) -> (r: Option<ManualSessionStatus>)
        ensures
            ({
                let expected = if self@.mode != TranscriptionMode::Manual {
                    None
                } else {
                    match (self@.current, self@.processing) {
                        (Some(session), _) => Some(session_status(session, now)),
                        (None, Some(p)) => Some(processing_status(p, now)),
                        (None, None) => None,
                    }
                };
                match (r, expected) {
                    (Some(s), Some(e)) => s@ == e,
                    (None, None) => true,
                    _ => false,
                }
            }),
    {
        if self.get_transcription_mode() != TranscriptionMode::Manual {
            return None;
        }
        match &self.current {
            Some(session) => Some(session.get_status(now)),
            None => match &self.processing {
                Some(p) => Some(p.get_status(now)),
                None => None,
            },
        }
    }

    /// Whether a manual session is recording or in processing; never outside
    /// manual mode.
    pub fn has_active_manual_session(&self) -> (r: bool)
        ensures
            r == (self@.mode == TranscriptionMode::Manual && ((self@.current matches Some(s)
                && (s.is_recording || s.is_processing)) || self@.processing is Some)),
    {
        if self.get_transcription_mode() != TranscriptionMode::Manual {
            return false;
        }
        if let Some(session) = &self.current {
            if session.is_recording || session.is_processing {
                return true;
            }
        }
        self.processing.is_some()
    }
}

/// Stopping a session lets the next one start at once: the stopped one is in
/// processing under its own id, and once its audio is drained a start is not
/// refused.
pub proof fn law_stop_makes_room_for_the_next(m: TranscriberModel, now: Instant)
    requires
        m.mode == TranscriptionMode::Manual,
        m.current is Some,
    ensures
        ({
            let stopped = after_stop(m, now);
            let drained = TranscriberModel { recording: false, finalizing: false, ..stopped };
            &&& stopped.current is None
            &&& processing_id(stopped) == Some(m.current->0.session_id)
            &&& start_refusal(drained) is None
        }),
{
}

/// While a session is finalizing no other can be started.
pub proof fn law_finalizing_blocks_starts(m: TranscriberModel)
    requires
        m.mode == TranscriptionMode::Manual,
        m.finalizing,
    ensures
        start_refusal(m) == Some(SessionErrorView::Finalizing),
{
}

/// After a cancellation no session is left, nothing is recorded, and there is
/// nothing to stop or cancel.
pub proof fn law_cancel_leaves_nothing(m: TranscriberModel)
    requires
        cancel_refusal(m) is None,
    ensures
        ({
            let c = after_cancel(m);
            &&& c.current is None
            &&& c.processing is None
            &&& !c.recording
            &&& stop_refusal(c) == Some(SessionErrorView::NothingToStop)
            &&& cancel_refusal(c) == Some(SessionErrorView::NothingToCancel)
        }),
{
}

/// A session that has just been started cannot be started over: the second
/// start names the first session's id.
pub proof fn law_second_start_is_refused(m: TranscriberModel, session: SessionView)
    requires
        start_refusal(m) is None,
        session.is_recording,
    ensures
        start_refusal(after_start(m, session)) == Some(
            SessionErrorView::StillRecording(session.session_id),
        ),
{
}

/// A session whose recording flag was cleared from outside gives way to a new
/// one.
pub proof fn law_stale_session_gives_way(m: TranscriberModel)
    requires
        m.mode == TranscriptionMode::Manual,
        !m.finalizing,
        !m.recording,
    ensures
        start_refusal(m) is None,
{
}

/// A finished session is cleared only under its own id: one that has taken its
/// place is left alone.
pub proof fn law_only_the_named_session_is_cleared(m: TranscriberModel, id: Seq<char>)
    requires
        processing_id(m) != Some(id),
    ensures
        with_session_cleared(m, id) == m,
        with_session_failed(m, id) == m,
{
}

/// Outside manual mode every session command is refused.
pub proof fn law_sessions_need_manual_mode(m: TranscriberModel)
    requires
        m.mode == TranscriptionMode::RealTime,
    ensures
        start_refusal(m) == Some(SessionErrorView::StartOutsideManualMode),
        stop_refusal(m) == Some(SessionErrorView::StopOutsideManualMode),
        cancel_refusal(m) == Some(SessionErrorView::CancelOutsideManualMode),
{
}

/// A session from start to end: it records under its own id, is moved into
/// processing when it is stopped, and once it was drained and handed over
/// nothing of it is left and the next can start.
pub proof fn law_session_runs_its_course(m: TranscriberModel, session: SessionView, now: Instant)
    requires
        start_refusal(m) is None,
        m.processor,
        session.is_recording,
    ensures
        ({
            let started = after_start(m, session);
            let stopped = after_stop(started, now);
            let drained = TranscriberModel { recording: false, finalizing: false, ..stopped };
            let done = with_session_cleared(drained, session.session_id);
            &&& started.recording
            &&& stop_refusal(started) is None
            &&& processing_id(stopped) == Some(session.session_id)
            &&& done.current is None
            &&& done.processing is None
            &&& !done.recording
            &&& start_refusal(done) is None
        }),
{
}

/// Every command keeps what holds of a coordinator at all times.
pub proof fn law_commands_keep_the_invariant(
    m: TranscriberModel,
    command: ManualSessionCommand,
    session: SessionView,
    now: Instant,
)
    requires
        transcriber_invariant(m),
    ensures
        transcriber_invariant(after_command(m, command, session, now)),
{
}

/// A command leaves alone whether the application runs, its processor and its
/// settings; only a switch changes the mode.
pub proof fn law_commands_leave_the_rest(
    m: TranscriberModel,
    command: ManualSessionCommand,
    session: SessionView,
    now: Instant,
)
    ensures
        ({
            let after = after_command(m, command, session, now);
            &&& after.running == m.running
            &&& after.finalizing == m.finalizing
            &&& after.processor == m.processor
            &&& after.started == m.started
            &&& after.clear_on_new_session == m.clear_on_new_session
            &&& after.mode == (match command {
                ManualSessionCommand::SwitchMode(mode) => mode,
                _ => m.mode,
            })
        }),
{
}

/// A refused command, and a switch to the mode at hand, changes nothing and
/// makes nothing happen. A stop that finds no processor to hand its session to
/// is no such refusal: it ends the recording.
pub proof fn law_refused_commands_do_nothing(
    m: TranscriberModel,
    command: ManualSessionCommand,
    session: SessionView,
    now: Instant,
)
    requires
        match command {
            ManualSessionCommand::StartSession => start_refusal(m) is Some,
            ManualSessionCommand::StopSession => stop_refusal(m) is Some && stop_refusal(m) != Some(
                SessionErrorView::ProcessorUnavailable,
            ),
            ManualSessionCommand::CancelSession => cancel_refusal(m) is Some,
            ManualSessionCommand::SwitchMode(mode) => mode == m.mode,
        },
    ensures
        after_command(m, command, session, now) == m,
        command_actions(m, command).len() == 0,
{
}

/// The recording flag after actions, where it stood at `flag` before.
pub open spec fn flag_after(flag: bool, actions: Seq<SessionAction>) -> bool
    decreases actions.len(),
{
    if actions.len() == 0 {
        flag
    } else {
        match actions.last() {
            SessionAction::SetRecording(on) => on,
            _ => flag_after(flag, actions.drop_last()),
        }
    }
}

/// The actions of a command set the recording flag to what the coordinator
/// holds it to be, and in a fixed order: raised right after the stream was
/// started, lowered right after it was stopped, so that no audio is dropped.
pub proof fn law_stream_comes_before_the_flag(
    m: TranscriberModel,
    command: ManualSessionCommand,
    session: SessionView,
    now: Instant,
)
    ensures
        ({
            let actions = command_actions(m, command);
            let after = after_command(m, command, session, now);
            &&& flag_after(m.recording, actions) == after.recording
            &&& forall|i: int|
                0 <= i < actions.len() && #[trigger] actions[i] == SessionAction::SetRecording(true)
                    ==> i > 0 && actions[i - 1] == SessionAction::StartStream
            &&& forall|i: int|
                0 <= i < actions.len() && #[trigger] actions[i] == SessionAction::SetRecording(
                    false,
                ) ==> i > 0 && actions[i - 1] == SessionAction::StopStream
        }),
{
    reveal_with_fuel(flag_after, 3);
}

/// A command is refused only with reason. A session starts in manual mode unless
/// one is being finalized, or is there and records, by its own account and by the
/// flag; it is stopped wherever there is one, current or in processing, and a
/// processor to hand it to; and it is cancelled wherever there is one.
pub proof fn law_commands_are_refused_with_reason(m: TranscriberModel)
    ensures
        start_refusal(m) is None <==> m.mode == TranscriptionMode::Manual && !m.finalizing && !(
        m.recording && (m.current matches Some(s) && s.is_recording)),
        stop_refusal(m) is None <==> m.mode == TranscriptionMode::Manual && m.processor && (
        m.current is Some || m.processing is Some),
        m.mode == TranscriptionMode::Manual && (m.current is Some || m.processing is Some)
            && !m.processor ==> stop_refusal(m) == Some(SessionErrorView::ProcessorUnavailable),
        cancel_refusal(m) is None <==> m.mode == TranscriptionMode::Manual && (m.current is Some
            || m.processing is Some),
{
}

/// Stopping hands over the session that records, under its own id and with its
/// own start, or else the one in processing again; nothing else changes, the
/// recording flag included, until the audio in flight is drained. Without a
/// processor the session counts as failed.
pub proof fn law_stopping_hands_the_session_over(m: TranscriberModel, now: Instant)
    requires
        m.mode == TranscriptionMode::Manual,
        m.current is Some || m.processing is Some,
    ensures
        ({
            let after = after_stop(m, now);
            let id = match m.current {
                Some(s) => s.session_id,
                None => m.processing->0.session.session_id,
            };
            &&& after.current is None
            &&& after.processing is Some
            &&& after.processing->0.session.session_id == id
            &&& m.current matches Some(s) ==> after.processing->0.session.start_time == s.start_time
                && !after.processing->0.session.is_recording
                && after.processing->0.processing_start_time == now
                && after.processing->0.session.is_processing == m.processor
            &&& m.current is None && m.processor ==> after.processing == m.processing
            &&& after.recording == m.recording
            &&& after.mode == m.mode
            &&& stop_finalizes(m, now) == (if m.processor { Some(id) } else { None })
            &&& stop_actions(m) == seq![SessionAction::StopStream]
        }),
{
}

/// What starting a session makes happen: the processor begins it before any of
/// its audio can come in, the transcripts are cleared exactly where that was
/// configured, and in the end the stream runs, the flag is up and the user hears
/// of it.
pub proof fn law_starting_prepares_first(m: TranscriberModel)
    ensures
        ({
            let a = start_actions(m);
            let n = a.len() as int;
            &&& n >= 3
            &&& a[n - 3] == SessionAction::StartStream
            &&& a[n - 2] == SessionAction::SetRecording(true)
            &&& a[n - 1] == SessionAction::Play(FeedbackEvent::SessionStart)
            &&& (exists|i: int| 0 <= i < n - 3 && #[trigger] a[i]
                == SessionAction::BeginProcessorSession) <==> m.processor
            &&& (exists|i: int| 0 <= i < n - 3 && #[trigger] a[i]
                == SessionAction::ClearTranscripts) <==> m.clear_on_new_session
            &&& n == 3 + (if m.processor { 1int } else { 0 }) + (if m.clear_on_new_session {
                1int
            } else {
                0
            })
        }),
{
    let a = start_actions(m);
    if m.processor {
        assert(a[0] == SessionAction::BeginProcessorSession);
        if m.clear_on_new_session {
            assert(a[1] == SessionAction::ClearTranscripts);
        }
    } else if m.clear_on_new_session {
        assert(a[0] == SessionAction::ClearTranscripts);
    }
}

/// Cancelling silences everything: the stream stops, then the flag is lowered,
/// and the user hears of it; nothing is handed over.
pub proof fn law_cancelling_hands_nothing_over(m: TranscriberModel, now: Instant)
    requires
        cancel_refusal(m) is None,
    ensures
        command_actions(m, ManualSessionCommand::CancelSession) == seq![
            SessionAction::StopStream,
            SessionAction::SetRecording(false),
            SessionAction::Play(FeedbackEvent::SessionCancel),
        ],
        stop_finalizes(after_cancel(m), now) is None,
{
}

/// A switch to real-time mode loses no session: the one that was current is moved
/// into processing and left to be transcribed, and the audio goes on under its
/// id until it was; with none the audio belongs to the realtime session at once.
/// Recording is then on. A switch to manual mode turns it off, and the audio
/// belongs to no session.
pub proof fn law_switching_loses_no_session(m: TranscriberModel, now: Instant)
    ensures
        m.mode == TranscriptionMode::Manual ==> ({
            let after = after_switch(m, TranscriptionMode::RealTime, now);
            let a = switch_actions(m, TranscriptionMode::RealTime);
            let left = switch_transcribes(m, TranscriptionMode::RealTime);
            &&& after.mode == TranscriptionMode::RealTime
            &&& after.recording
            &&& after.current is None
            &&& m.current matches Some(s) ==> processing_id(after) == Some(s.session_id)
            &&& m.current is None ==> after.processing == m.processing
            &&& left == (match m.current {
                Some(s) if m.processor => Some(s.session_id),
                _ => None,
            })
            &&& a.contains(SessionAction::SetRealtimeSessionId) <==> m.processor && m.current is None
            &&& a.contains(SessionAction::ResetVad) <==> m.processor
            &&& a.last() == SessionAction::SetRecording(true)
        }),
        m.mode == TranscriptionMode::RealTime ==> ({
            let after = after_switch(m, TranscriptionMode::Manual, now);
            let a = switch_actions(m, TranscriptionMode::Manual);
            &&& after.mode == TranscriptionMode::Manual
            &&& !after.recording
            &&& after.current == m.current && after.processing == m.processing
            &&& switch_transcribes(m, TranscriptionMode::Manual) is None
            &&& a.contains(SessionAction::ClearSessionId) <==> m.processor
            &&& a.contains(SessionAction::ResetVad) <==> m.processor
            &&& a.last() == SessionAction::ShowNotSpeaking
        }),
{
    if m.mode == TranscriptionMode::Manual {
        let a = switch_actions(m, TranscriptionMode::RealTime);
        if m.processor {
            assert(a[1] == SessionAction::ResetVad);
            if m.current is None {
                assert(a[2] == SessionAction::SetRealtimeSessionId);
            }
        }
    } else {
        let a = switch_actions(m, TranscriptionMode::Manual);
        if m.processor {
            assert(a[0] == SessionAction::ClearSessionId);
            assert(a[1] == SessionAction::ResetVad);
        }
    }
}

/// A session that could not be handed over stays, under its id, marked as no
/// longer processed; one that was is gone.
pub proof fn law_failed_sessions_stay(m: TranscriberModel)
    requires
        m.processing is Some,
    ensures
        ({
            let p = m.processing->0;
            let failed = with_session_failed(m, p.session.session_id);
            let cleared = with_session_cleared(m, p.session.session_id);
            &&& processing_id(failed) == Some(p.session.session_id)
            &&& !failed.processing->0.session.is_processing
            &&& failed.processing->0.session.start_time == p.session.start_time
            &&& failed.current == m.current && failed.recording == m.recording
            &&& cleared.processing is None
            &&& cleared.current == m.current && cleared.recording == m.recording
        }),
{
}

/// Audio in flight is waited for until all that was sent was received, two
/// seconds at most; what is given up is what was not received.
pub proof fn law_drain_waits_for_all(sent: usize, received: usize, begun: Instant, now: Instant)
    ensures
        match drain_check(sent, received, begun, now) {
            DrainStep::Drained { received: n } => received >= sent && n == received,
            DrainStep::TimedOut { lost } => {
                &&& received < sent
                &&& nanos_between(begun, now) > 2_000_000_000
                &&& lost == sent - received
            },
            DrainStep::Wait => received < sent && nanos_between(begun, now) <= 2_000_000_000,
        },
{
}

} // verus!
