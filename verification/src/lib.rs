//! Reusable speech-to-text runtime components: the decisions, buffers, tables
//! and text rules of a local transcription pipeline, each with a verified
//! contract.
//!
//! Push-to-talk applications start with [`SpeechEngine`]. Applications that
//! need full realtime state and control use [`RealTimeTranscriber`].

pub mod audio_capture;
pub mod audio_processor;
pub mod backend;
pub mod backend_manager;
pub mod config;
pub mod download;
pub mod engine;
pub mod feedback;
pub mod post_processor;
pub mod prelude;
pub mod real_time_transcriber;
pub mod samples;
pub mod silero_audio_processor;
pub mod state;
pub mod stats_reporter;
pub mod text;
pub mod time;
pub mod transcription_processor;

pub use audio_capture::AudioCapture;
pub use audio_processor::AudioProcessor;
pub use backend::factory::create_backend;
pub use backend::traits::{TranscriptionError, TranscriptionResult};
pub use backend::{
    BackendCapabilities, BackendConfig, BackendType, QuantizationLevel, TranscriptionBackend,
};
pub use backend_manager::{BackendCommand, BackendManager};
pub use config::{
    migrate_legacy_ctranslate2_config, AudioProcessorConfig, CT2Options,
    CommonTranscriptionOptions, DebugConfig, GeneralConfig, ManualModeConfig, MoonshineOptions,
    NemotronOptions, ParakeetOptions, PostProcessConfig, RealtimeModeConfig, SpeechConfig,
    VadConfigSerde, WhisperCppOptions, SAMPLE_RATE,
};
pub use download::{model_cache_dir, resolve_model_path};
pub use engine::{SpeechEngine, Transcript};
pub use feedback::{FeedbackEvent, FeedbackSink};
pub use real_time_transcriber::sessions::ManualSessionStatus;
pub use real_time_transcriber::transcriber::{ManualSessionCommand, RealTimeTranscriber};
pub use real_time_transcriber::{TranscriptionMessage, TranscriptionMode};
pub use silero_audio_processor::{AudioSegment, SampleRate, SileroVad, VadConfig, VadState};
pub use state::{AudioVisualizationData, BackendStatus, BackendStatusState, ProcessingState};
pub use stats_reporter::StatsReporter;
pub use transcription_processor::processor::TranscriptionProcessor;
