//! What applications use most.

pub use crate::{
    AudioCapture, AudioProcessor, AudioSegment, AudioVisualizationData, BackendConfig,
    BackendStatus, BackendStatusState, BackendType, FeedbackEvent, FeedbackSink,
    ManualSessionCommand, ProcessingState, QuantizationLevel, RealTimeTranscriber, SileroVad,
    SpeechConfig, SpeechEngine, Transcript, TranscriptionBackend, TranscriptionMessage,
    TranscriptionMode, TranscriptionResult, VadConfig, VadState,
};
