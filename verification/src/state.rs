//! State that an application observes: the audio on display, the transcript,
//! what is being processed, and the status of the backend.

use vstd::prelude::*;

use crate::samples::append_all;
use crate::time::{nanos_between, Instant};

verus! {

/// Processing states for transcription.
#[derive(Debug, Clone, Copy, PartialEq, Eq, Structural)]
pub enum ProcessingState {
    /// No active processing.
    Idle,
    /// Loading model or initializing.
    Loading,
    /// Currently transcribing audio.
    Transcribing,
    /// Recording paused.
    Paused,
    /// Processing completed successfully.
    Completed,
    /// Error occurred during processing.
    Error,
}

/// Common data structure for observing audio and transcription state.
#[derive(Debug, Clone)]
pub struct AudioVisualizationData<S> {
    /// Audio samples to visualize.
    pub samples: Vec<S>,
    /// Whether speech is currently detected.
    pub is_speaking: bool,
    /// Current transcript text.
    pub transcript: String,
    /// Request to reset the transcript history.
    pub reset_requested: bool,
    /// Current processing state.
    pub processing_state: ProcessingState,
    /// When the processing state last changed.
    pub processing_state_changed: Instant,
}

/// What an [`AudioVisualizationData`] holds.
#[verifier::ext_equal]
pub struct VisualizationModel<S> {
    pub samples: Seq<S>,
    pub is_speaking: bool,
    pub transcript: Seq<char>,
    pub reset_requested: bool,
    pub processing_state: ProcessingState,
    pub processing_state_changed: Instant,
}

impl<S> View for AudioVisualizationData<S> {
    type V = VisualizationModel<S>;

    open spec fn view(&self) -> VisualizationModel<S> {
        VisualizationModel {
            samples: self.samples@,
            is_speaking: self.is_speaking,
            transcript: self.transcript@,
            reset_requested: self.reset_requested,
            processing_state: self.processing_state,
            processing_state_changed: self.processing_state_changed,
        }
    }
}

/// The data after the processing state was set: the time changes with the
/// state, not otherwise.
pub open spec fn with_processing_state<S>(
    d: VisualizationModel<S>,
    state: ProcessingState,
    now: Instant,
) -> VisualizationModel<S> {
    if d.processing_state == state {
        d
    } else {
        VisualizationModel { processing_state: state, processing_state_changed: now, ..d }
    }
}

impl<S: Copy> AudioVisualizationData<S> {
    /// Nothing heard, nothing transcribed, idle since `now`.
    pub fn with_capacity(capacity: usize, now: Instant) -> (r: Self)
        ensures
            r@ == (VisualizationModel::<S> {
                samples: Seq::empty(),
                is_speaking: false,
                transcript: Seq::empty(),
                reset_requested: false,
                processing_state: ProcessingState::Idle,
                processing_state_changed: now,
            }),
    {
        let r = AudioVisualizationData {
            samples: Vec::with_capacity(capacity),
            is_speaking: false,
            transcript: String::new(),
            reset_requested: false,
            processing_state: ProcessingState::Idle,
            processing_state_changed: now,
        };
        assert(r.transcript@ =~= Seq::empty());
        r
    }

    /// Clears the samples.
    pub fn clear_samples(&mut self)
        ensures
            final(self)@ == (VisualizationModel { samples: Seq::empty(), ..old(self)@ }),
    {
        self.samples.clear();
    }

    /// Replaces the transcript.
    pub fn update_transcript(&mut self, new_transcript: &str)
        ensures
            final(self)@ == (VisualizationModel { transcript: new_transcript@, ..old(self)@ }),
    {
        self.transcript = new_transcript.to_owned();
    }

    /// Replaces the samples.
    pub fn update_samples(&mut self, new_samples: &[S])
        ensures
            final(self)@ == (VisualizationModel { samples: new_samples@, ..old(self)@ }),
    {
        self.samples.clear();
        append_all(&mut self.samples, new_samples);
    }

    /// Sets the processing state; the time of a change is `now`.
    pub fn set_processing_state(&mut self, state: ProcessingState, now: Instant)
        ensures
            final(self)@ == with_processing_state(old(self)@, state, now),
    {
        if self.processing_state != state {
            self.processing_state = state;
            self.processing_state_changed = now;
        }
    }

    /// Whether something is being processed: loading, transcribing or paused.
    pub fn is_processing(&self) -> (r: bool)
        ensures
            r == (self@.processing_state == ProcessingState::Loading || self@.processing_state
                == ProcessingState::Transcribing || self@.processing_state
                == ProcessingState::Paused),
    {
        matches!(
            self.processing_state,
            ProcessingState::Loading | ProcessingState::Transcribing | ProcessingState::Paused
        )
    }

    /// Nanoseconds since the processing state changed.
    pub fn processing_state_duration(&self, now: Instant) -> (r: u64)
        ensures
            r == nanos_between(self@.processing_state_changed, now),
    {
        now.duration_since(self.processing_state_changed)
    }
}

/// Setting the state that already stands changes nothing.
pub proof fn law_same_state_keeps_its_time<S>(
    d: VisualizationModel<S>,
    state: ProcessingState,
    first: Instant,
    second: Instant,
)
    ensures
        with_processing_state(with_processing_state(d, state, first), state, second)
            == with_processing_state(d, state, first),
{
}

/// Status state of the transcription backend.
#[derive(Debug, Clone, PartialEq)]
pub enum BackendStatusState {
    Ready,
    Loading(String),
    Error(String),
}

/// What a [`BackendStatusState`] holds.
pub enum BackendStateModel {
    Ready,
    Loading(Seq<char>),
    Error(Seq<char>),
}

impl View for BackendStatusState {
    type V = BackendStateModel;

    open spec fn view(&self) -> BackendStateModel {
        match self {
            BackendStatusState::Ready => BackendStateModel::Ready,
            BackendStatusState::Loading(s) => BackendStateModel::Loading(s@),
            BackendStatusState::Error(s) => BackendStateModel::Error(s@),
        }
    }
}

/// Shared backend status for the status bar. Download progress, of type `F`,
/// is only carried.
#[derive(Debug, Clone)]
pub struct BackendStatus<F> {
    pub backend_name: String,
    pub model_name: String,
    pub state: BackendStatusState,
    pub error_time: Option<Instant>,
    pub download_progress: Option<F>,
    pub is_recording: bool,
    pub recording_start: Option<Instant>,
}

/// What a [`BackendStatus`] holds.
#[verifier::ext_equal]
pub struct StatusModel<F> {
    pub backend_name: Seq<char>,
    pub model_name: Seq<char>,
    pub state: BackendStateModel,
    pub error_time: Option<Instant>,
    pub download_progress: Option<F>,
    pub is_recording: bool,
    pub recording_start: Option<Instant>,
}

impl<F> View for BackendStatus<F> {
    type V = StatusModel<F>;

    open spec fn view(&self) -> StatusModel<F> {
        StatusModel {
            backend_name: self.backend_name@,
            model_name: self.model_name@,
            state: self.state@,
            error_time: self.error_time,
            download_progress: self.download_progress,
            is_recording: self.is_recording,
            recording_start: self.recording_start,
        }
    }
}

/// A backend that is ready, and nothing recorded.
pub open spec fn ready_status<F>(backend_name: Seq<char>, model_name: Seq<char>) -> StatusModel<F> {
    StatusModel {
        backend_name,
        model_name,
        state: BackendStateModel::Ready,
        error_time: None,
        download_progress: None,
        is_recording: false,
        recording_start: None,
    }
}

impl<F> BackendStatus<F> {
    /// The status of a ready backend.
    pub fn new(backend_name: String, model_name: String) -> (r: Self)
        ensures
            r@ == ready_status::<F>(backend_name@, model_name@),
    {
        BackendStatus {
            backend_name,
            model_name,
            state: BackendStatusState::Ready,
            error_time: None,
            download_progress: None,
            is_recording: false,
            recording_start: None,
        }
    }
}

} // verus!
