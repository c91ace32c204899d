//! whisper.cpp backend: the parameters of a transcription.

use vstd::prelude::*;
use vstd::string::*;

use crate::backend::traits::{ErrorModel, TranscriptionError};
use crate::backend::{BackendCapabilities, BackendConfig};
use crate::config::{CommonTranscriptionOptions, WhisperCppOptions};
use crate::text::strings::{concat, concat_all, concatenated, opt_view, views};

verus! {

/// How the text is searched for. The patience, of type `P`, is only carried.
#[derive(Debug, Clone, Copy)]
pub enum SamplingStrategy<P> {
    Greedy { best_of: i32 },
    BeamSearch { beam_size: i32, patience: P },
}

/// Parameters of a transcription.
#[derive(Debug, Clone)]
pub struct TranscribeParams<P> {
    pub strategy: SamplingStrategy<P>,
    pub threads: i32,
    pub language: String,
    pub temperature: P,
    pub suppress_blank: bool,
    pub no_context: bool,
    /// Limit on tokens, where there is one.
    pub max_tokens: Option<i32>,
    /// Prompt the model is conditioned on, where there is one.
    pub initial_prompt: Option<String>,
    /// Whether the audio is taken as one segment.
    pub single_segment: bool,
}

/// Longest audio, in whole seconds, that is taken as one segment.
pub const SEGMENT_THRESHOLD_SECONDS: usize = 30;

/// The prompt that an optional text stands for: an empty one is none.
pub open spec fn prompt_of(prompt: Option<Seq<char>>) -> Option<Seq<char>> {
    match prompt {
        Some(p) if p.len() > 0 => Some(p),
        _ => None,
    }
}

/// whisper.cpp backend.
#[derive(Debug, Clone)]
pub struct WhisperCppBackend {
    /// Configuration used to create this backend.
    pub config: BackendConfig,
}

impl WhisperCppBackend {
    /// What the backend can do: audio of any length, any language.
    pub fn capabilities(&self) -> (r: BackendCapabilities)
        ensures
            r.name@ == "whisper.cpp"@,
            r.max_audio_duration is None,
            r.supported_languages is None,
            !r.supports_streaming,
            r.gpu_available == self.config.gpu_enabled,
    {
        BackendCapabilities {
            name: "whisper.cpp",
            max_audio_duration: None,
            supported_languages: None,
            supports_streaming: false,
            gpu_available: self.config.gpu_enabled,
        }
    }

    /// The parameters for transcribing `sample_count` samples: beam search
    /// where the beam is wider than one, one segment for short audio.
    pub fn transcribe_params<P: Copy>(
        &self,
        sample_count: usize,
        language: &str,
        common_options: &CommonTranscriptionOptions<P>,
        options: &WhisperCppOptions<P>,
        sample_rate: usize,
    ) -> (r: TranscribeParams<P>)
        requires
            sample_rate > 0,
        ensures
            r.strategy == (if common_options.beam_size > 1 {
                SamplingStrategy::BeamSearch {
                    beam_size: common_options.beam_size as i32,
                    patience: common_options.patience,
                }
            } else {
                SamplingStrategy::Greedy { best_of: 1 }
            }),
            r.threads == self.config.threads as i32,
            r.language@ == language@,
            r.temperature == options.temperature,
            r.suppress_blank == options.suppress_blank,
            r.no_context == options.no_context,
            r.max_tokens == (if options.max_tokens > 0 { Some(options.max_tokens) } else { None }),
            opt_view(r.initial_prompt) == prompt_of(opt_view(options.initial_prompt)),
            r.single_segment == (sample_count as int / sample_rate as int
                <= SEGMENT_THRESHOLD_SECONDS),
    {
        let strategy = if common_options.beam_size > 1 {
            SamplingStrategy::BeamSearch {
                beam_size: common_options.beam_size as i32,
                patience: common_options.patience,
            }
        } else {
            SamplingStrategy::Greedy { best_of: 1 }
        };
        let initial_prompt = match &options.initial_prompt {
            Some(prompt) => if prompt.as_str().unicode_len() > 0 {
                Some(prompt.clone())
            } else {
                None
            },
            None => None,
        };
        TranscribeParams {
            strategy,
            threads: self.config.threads as i32,
            language: language.to_owned(),
            temperature: options.temperature,
            suppress_blank: options.suppress_blank,
            no_context: options.no_context,
            max_tokens: if options.max_tokens > 0 { Some(options.max_tokens) } else { None },
            initial_prompt,
            single_segment: sample_count / sample_rate <= SEGMENT_THRESHOLD_SECONDS,
        }
    }

    /// The transcript: the texts of all segments, one after the other.
    pub fn transcript(segments: &Vec<String>) -> (r: String)
        ensures
            r@ == concat_all(views(segments@)),
    {
        concatenated(segments)
    }
}

/// How whisper.cpp fails, as far as errors tell it apart.
#[derive(Debug, Clone, Copy, PartialEq, Eq, Structural)]
pub enum WhisperFailure {
    /// A context could not be made.
    InitError,
    /// No samples were given.
    NoSamples,
    /// The number of threads was refused.
    InvalidThreadCount,
    /// Anything else.
    Other,
}

/// The error that a failure of whisper.cpp is reported as, `detail` being how
/// whisper.cpp names it.
pub open spec fn whisper_error_model(failure: WhisperFailure, detail: Seq<char>) -> ErrorModel {
    match failure {
        WhisperFailure::InitError => ErrorModel::ModelNotAvailable(
            "Initialization error: "@ + detail,
        ),
        WhisperFailure::NoSamples | WhisperFailure::InvalidThreadCount => ErrorModel::InvalidAudio(
            "Invalid input: "@ + detail,
        ),
        WhisperFailure::Other => ErrorModel::InferenceError("whisper-rs error: "@ + detail),
    }
}

/// The error that a failure of whisper.cpp is reported as.
pub fn whisper_error(failure: WhisperFailure, detail: &str) -> (r: TranscriptionError)
    ensures
        r@ == whisper_error_model(failure, detail@),
{
    match failure {
        WhisperFailure::InitError => TranscriptionError::ModelNotAvailable(
            concat("Initialization error: ", detail),
        ),
        WhisperFailure::NoSamples | WhisperFailure::InvalidThreadCount => {
            TranscriptionError::InvalidAudio(concat("Invalid input: ", detail))
        },
        WhisperFailure::Other => TranscriptionError::InferenceError(
            concat("whisper-rs error: ", detail),
        ),
    }
}

/// whisper.cpp is given what was asked for: the language, the threads, the
/// options, a beam where it is wider than one; a prompt and a limit only where
/// there is one; and audio of less than 31 seconds as one segment.
pub proof fn law_parameters_follow_the_options<P: Copy>(
    backend: &WhisperCppBackend,
    sample_count: usize,
    language: &str,
    common: &CommonTranscriptionOptions<P>,
    options: &WhisperCppOptions<P>,
    sample_rate: usize,
    r: TranscribeParams<P>,
)
    requires
        sample_rate > 0,
        call_ensures(
            WhisperCppBackend::transcribe_params::<P>,
            (backend, sample_count, language, common, options, sample_rate),
            r,
        ),
    ensures
        r.language@ == language@,
        r.strategy is BeamSearch <==> common.beam_size > 1,
        r.temperature == options.temperature,
        r.suppress_blank == options.suppress_blank,
        r.no_context == options.no_context,
        r.max_tokens is Some <==> options.max_tokens > 0,
        r.max_tokens matches Some(n) ==> n == options.max_tokens,
        r.initial_prompt is Some <==> (options.initial_prompt matches Some(p) && p@.len() > 0),
        r.initial_prompt matches Some(p) ==> p@ == options.initial_prompt->0@,
        r.single_segment <==> sample_count < 31 * sample_rate,
{
    let n = sample_count as int;
    let s = sample_rate as int;
    vstd::arithmetic::div_mod::lemma_fundamental_div_mod(n, s);
    vstd::arithmetic::div_mod::lemma_mod_bound(n, s);
    let q = n / s;
    if q <= 30 {
        assert(s * q <= s * 30) by (nonlinear_arith)
            requires
                q <= 30,
                s > 0,
        ;
    } else {
        assert(s * q >= s * 31) by (nonlinear_arith)
            requires
                q >= 31,
                s > 0,
        ;
    }
}

} // verus!
