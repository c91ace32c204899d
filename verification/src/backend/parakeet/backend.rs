//! Parakeet TDT backend.

use vstd::prelude::*;

use crate::backend::traits::{outcome_is, ErrorModel, TranscriptionError};
use crate::backend::{BackendCapabilities, BackendConfig};
use crate::text::numbers::{decimal, decimal_text};
use crate::text::strings::{concat, concat3, owned, str_views, views};

verus! {

/// The languages Parakeet transcribes.
pub open spec fn parakeet_languages() -> Seq<Seq<char>> {
    seq![
        "en"@, "de"@, "es"@, "fr"@, "it"@, "pt"@, "nl"@, "pl"@, "ro"@, "sv"@, "da"@, "fi"@, "no"@,
        "cs"@, "sk"@, "hu"@, "el"@, "bg"@, "hr"@, "sl"@, "lt"@, "lv"@, "et"@, "uk"@, "ca"@,
    ]
}

/// Most decoding steps of a transcription.
pub const MAX_DECODE_STEPS: usize = 10000;

/// Sample rate of the audio Parakeet takes.
pub const PARAKEET_SAMPLE_RATE: usize = 16000;

/// Parakeet TDT backend.
#[derive(Debug, Clone)]
pub struct ParakeetBackend {
    /// Configuration used to create this backend.
    pub config: BackendConfig,
}

fn languages() -> (r: Vec<String>)
    ensures
        views(r@) == parakeet_languages(),
{
    let codes: [&'static str; 25] = [
        "en", "de", "es", "fr", "it", "pt", "nl", "pl", "ro", "sv", "da", "fi", "no", "cs", "sk",
        "hu", "el", "bg", "hr", "sl", "lt", "lv", "et", "uk", "ca",
    ];
    assert(str_views(codes@) =~= parakeet_languages());
    owned(codes)
}

impl ParakeetBackend {
    /// What the backend can do: up to a minute and a half of audio, in the
    /// languages listed.
    pub fn capabilities(&self) -> (r: BackendCapabilities)
        ensures
            r.name@ == "Parakeet TDT"@,
            r.max_audio_duration == Some(90u32),
            r.supported_languages matches Some(l) && views(l@) == parakeet_languages(),
            !r.supports_streaming,
            r.gpu_available == self.config.gpu_enabled,
    {
        BackendCapabilities {
            name: "Parakeet TDT",
            max_audio_duration: Some(90),
            supported_languages: Some(languages()),
            supports_streaming: false,
            gpu_available: self.config.gpu_enabled,
        }
    }

    /// Checks that audio comes at the rate Parakeet takes.
    pub fn check_sample_rate(sample_rate: usize) -> (r: Result<(), TranscriptionError>)
        ensures
            outcome_is(
                r,
                if sample_rate == 16000 {
                    None
                } else {
                    Some(
                        ErrorModel::InvalidAudio(
                            "Parakeet expects 16000Hz audio, got "@ + decimal(sample_rate as nat)
                                + "Hz"@,
                        ),
                    )
                },
            ),
    {
        if sample_rate != PARAKEET_SAMPLE_RATE {
            return Err(
                TranscriptionError::InvalidAudio(
                    concat3(
                        "Parakeet expects 16000Hz audio, got ",
                        decimal_text(sample_rate as u64).as_str(),
                        "Hz",
                    ),
                ),
            );
        }
        Ok(())
    }

    /// The error that the model cannot be loaded.
    pub fn load_error(reason: &str) -> (r: TranscriptionError)
        ensures
            r@ == ErrorModel::ModelNotAvailable("Parakeet model load failed: "@ + reason@),
    {
        TranscriptionError::ModelNotAvailable(concat("Parakeet model load failed: ", reason))
    }
}

} // verus!
