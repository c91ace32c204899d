//! Error and result types common to the transcription backends.

use vstd::prelude::*;

use crate::text::strings::concat;

verus! {

/// Unified error type for transcription operations.
#[derive(Debug, Clone)]
pub enum TranscriptionError {
    /// Model not loaded or initialization failed.
    ModelNotAvailable(String),
    /// Backend-specific inference error.
    InferenceError(String),
    /// Invalid audio format or parameters.
    InvalidAudio(String),
    /// Unsupported language for this backend.
    UnsupportedLanguage(String),
    /// Backend not implemented or not enabled.
    BackendNotImplemented(String),
    /// Configuration error.
    ConfigurationError(String),
    /// I/O error (model loading, etc.).
    IoError(String),
}

/// What a [`TranscriptionError`] holds.
pub enum ErrorModel {
    ModelNotAvailable(Seq<char>),
    InferenceError(Seq<char>),
    InvalidAudio(Seq<char>),
    UnsupportedLanguage(Seq<char>),
    BackendNotImplemented(Seq<char>),
    ConfigurationError(Seq<char>),
    IoError(Seq<char>),
}

impl View for TranscriptionError {
    type V = ErrorModel;

    open spec fn view(&self) -> ErrorModel {
        match self {
            TranscriptionError::ModelNotAvailable(m) => ErrorModel::ModelNotAvailable(m@),
            TranscriptionError::InferenceError(m) => ErrorModel::InferenceError(m@),
            TranscriptionError::InvalidAudio(m) => ErrorModel::InvalidAudio(m@),
            TranscriptionError::UnsupportedLanguage(m) => ErrorModel::UnsupportedLanguage(m@),
            TranscriptionError::BackendNotImplemented(m) => ErrorModel::BackendNotImplemented(m@),
            TranscriptionError::ConfigurationError(m) => ErrorModel::ConfigurationError(m@),
            TranscriptionError::IoError(m) => ErrorModel::IoError(m@),
        }
    }
}

/// The text of an error.
pub open spec fn error_text(e: ErrorModel) -> Seq<char> {
    match e {
        ErrorModel::ModelNotAvailable(m) => "Model not available: "@ + m,
        ErrorModel::InferenceError(m) => "Inference error: "@ + m,
        ErrorModel::InvalidAudio(m) => "Invalid audio: "@ + m,
        ErrorModel::UnsupportedLanguage(m) => "Unsupported language: "@ + m,
        ErrorModel::BackendNotImplemented(m) => "Backend not implemented: "@ + m,
        ErrorModel::ConfigurationError(m) => "Configuration error: "@ + m,
        ErrorModel::IoError(m) => "I/O error: "@ + m,
    }
}

impl TranscriptionError {
    /// The text of the error.
    pub fn to_string(&self) -> (r: String)
        ensures
            r@ == error_text(self@),
    {
        match self {
            TranscriptionError::ModelNotAvailable(m) => concat("Model not available: ", m.as_str()),
            TranscriptionError::InferenceError(m) => concat("Inference error: ", m.as_str()),
            TranscriptionError::InvalidAudio(m) => concat("Invalid audio: ", m.as_str()),
            TranscriptionError::UnsupportedLanguage(m) => concat(
                "Unsupported language: ",
                m.as_str(),
            ),
            TranscriptionError::BackendNotImplemented(m) => concat(
                "Backend not implemented: ",
                m.as_str(),
            ),
            TranscriptionError::ConfigurationError(m) => concat(
                "Configuration error: ",
                m.as_str(),
            ),
            TranscriptionError::IoError(m) => concat("I/O error: ", m.as_str()),
        }
    }
}

/// Whether a result is a success, or a failure with the given error.
pub open spec fn outcome_is<T>(r: Result<T, TranscriptionError>, error: Option<ErrorModel>) -> bool {
    match (r, error) {
        (Ok(_), None) => true,
        (Err(e), Some(m)) => e@ == m,
        _ => false,
    }
}

/// Standardized transcription result. The confidence score, of type `F`, is
/// only carried.
#[derive(Debug, Clone)]
pub struct TranscriptionResult<F> {
    /// The transcribed text.
    pub text: String,
    /// Optional confidence score.
    pub confidence: Option<F>,
    /// Optional language detected.
    pub detected_language: Option<String>,
}

impl<F> TranscriptionResult<F> {
    /// A simple result with just text.
    pub fn new(text: String) -> (r: Self)
        ensures
            r == (TranscriptionResult::<F> { text, confidence: None, detected_language: None }),
    {
        TranscriptionResult { text, confidence: None, detected_language: None }
    }

    /// A result with a confidence score.
    pub fn with_confidence(text: String, confidence: F) -> (r: Self)
        ensures
            r == (TranscriptionResult {
                text,
                confidence: Some(confidence),
                detected_language: None,
            }),
    {
        TranscriptionResult { text, confidence: Some(confidence), detected_language: None }
    }
}

} // verus!
