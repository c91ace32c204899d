//! Configuration. Fractional settings, of type `F`, are only carried: nothing
//! here computes with them, and their defaults come in [`ConfigNumbers`].

use vstd::prelude::*;

use crate::backend::ctranslate2::{
    legacy_config, legacy_config_on, migrate_legacy_config, migrate_legacy_config_on,
    WhisperOptions,
};
use crate::backend::{
    config_for, cpu_count, preferred_backend, threads_for, BackendConfig, BackendFeatures,
    BackendType, QuantizationLevel,
};
use crate::silero_audio_processor::VadConfig;

verus! {

/// Audio sample rate in Hz.
pub const SAMPLE_RATE: usize = 16000;

/// Audio processor configuration parameters for general audio processing.
#[derive(Debug, Clone, Copy, PartialEq, Eq, Structural)]
pub struct AudioProcessorConfig {
    /// Audio processing block size in samples, also used for visualization.
    pub buffer_size: usize,
}

impl Default for AudioProcessorConfig {
    fn default() -> (r: Self)
        ensures
            r.buffer_size == 1024,
    {
        AudioProcessorConfig { buffer_size: 1024 }
    }
}

/// Configuration for general core settings.
#[derive(Debug, Clone)]
pub struct GeneralConfig {
    /// Main model to use for transcription.
    pub model: String,
    /// Language for transcription.
    pub language: String,
    /// Transcription mode: "realtime" or "manual".
    pub transcription_mode: String,
}

impl Default for GeneralConfig {
    fn default() -> (r: Self)
        ensures
            r.model@ == "small.en"@,
            r.language@ == "en"@,
            r.transcription_mode@ == "manual"@,
    {
        GeneralConfig {
            model: "small.en".to_owned(),
            language: "en".to_owned(),
            transcription_mode: "manual".to_owned(),
        }
    }
}

/// Configuration for real-time transcription mode.
#[derive(Debug, Clone, Copy)]
pub struct RealtimeModeConfig<F> {
    /// Maximum audio buffer duration in seconds for VAD history.
    pub max_buffer_duration_sec: F,
    /// Maximum number of speech segments to keep in buffer.
    pub max_segment_count: usize,
}

/// Configuration for manual transcription mode.
#[derive(Debug, Clone, Copy)]
pub struct ManualModeConfig<F> {
    /// Maximum recording duration in seconds.
    pub max_recording_duration_secs: u32,
    /// Whether to clear the previous transcript when starting a new session.
    pub clear_on_new_session: bool,
    /// Duration of each chunk in seconds.
    pub chunk_duration_seconds: F,
    /// Whether chunks overlap.
    pub enable_chunk_overlap: bool,
    /// Overlap duration in seconds between chunks.
    pub chunk_overlap_seconds: F,
    /// Whether a recording is transcribed as a single segment.
    pub disable_chunking: bool,
}

/// Configuration for debugging and development.
#[derive(Debug, Clone)]
pub struct DebugConfig {
    /// Whether to log statistics.
    pub log_stats_enabled: bool,
    /// Whether to save manual mode audio to WAV files.
    pub save_manual_audio_debug: bool,
    /// Directory to save debug recordings.
    pub recording_dir: String,
}

impl Default for DebugConfig {
    fn default() -> (r: Self)
        ensures
            !r.log_stats_enabled,
            !r.save_manual_audio_debug,
            r.recording_dir@ == "recordings"@,
    {
        DebugConfig {
            log_stats_enabled: false,
            save_manual_audio_debug: false,
            recording_dir: "recordings".to_owned(),
        }
    }
}

/// Configuration for transcription post-processing.
#[derive(Debug, Clone, Copy, PartialEq, Eq, Structural)]
pub struct PostProcessConfig {
    /// Enable post-processing of transcriptions.
    pub enabled: bool,
    /// Remove leading dashes from transcriptions.
    pub remove_leading_dashes: bool,
    /// Remove trailing dashes from transcriptions.
    pub remove_trailing_dashes: bool,
    /// Normalize whitespace (collapse runs, remove leading and trailing).
    pub normalize_whitespace: bool,
    /// Remove standalone filler words.
    pub remove_fillers: bool,
    /// Collapse a word immediately repeated.
    pub collapse_repeated_words: bool,
    /// Capitalize the first letter of each sentence.
    pub capitalize_sentences: bool,
    /// Append a full stop to a text that ends on a word.
    pub ensure_terminal_punctuation: bool,
}

impl Default for PostProcessConfig {
    fn default() -> (r: Self)
        ensures
            r == (PostProcessConfig {
                enabled: true,
                remove_leading_dashes: true,
                remove_trailing_dashes: true,
                normalize_whitespace: true,
                remove_fillers: true,
                collapse_repeated_words: false,
                capitalize_sentences: false,
                ensure_terminal_punctuation: false,
            }),
    {
        PostProcessConfig {
            enabled: true,
            remove_leading_dashes: true,
            remove_trailing_dashes: true,
            normalize_whitespace: true,
            remove_fillers: true,
            collapse_repeated_words: false,
            capitalize_sentences: false,
            ensure_terminal_punctuation: false,
        }
    }
}

/// VAD sensitivity presets for different acoustic environments.
#[derive(Debug, Clone, Copy, PartialEq, Eq, Structural)]
pub enum VadSensitivity {
    /// Less sensitive: fewer false positives in noisy environments.
    Low,
    /// Balanced.
    Medium,
    /// More sensitive: catches quiet speech, may trigger on background noise.
    High,
}

impl Default for VadSensitivity {
    fn default() -> (r: Self)
        ensures
            r == VadSensitivity::Medium,
    {
        VadSensitivity::Medium
    }
}

/// The speech detection threshold of a sensitivity level, in hundredths.
pub open spec fn start_hundredths(s: VadSensitivity) -> u32 {
    match s {
        VadSensitivity::Low => 15,
        VadSensitivity::Medium => 10,
        VadSensitivity::High => 5,
    }
}

/// The speech end threshold of a sensitivity level, in hundredths.
pub open spec fn end_hundredths(s: VadSensitivity) -> u32 {
    match s {
        VadSensitivity::Low => 12,
        VadSensitivity::Medium => 8,
        VadSensitivity::High => 3,
    }
}

impl VadSensitivity {
    /// The speech detection threshold, in hundredths.
    pub fn threshold(&self) -> (r: u32)
        ensures
            r == start_hundredths(*self),
    {
        match self {
            VadSensitivity::Low => 15,
            VadSensitivity::Medium => 10,
            VadSensitivity::High => 5,
        }
    }

    /// The speech end threshold (hysteresis), in hundredths.
    pub fn speech_end_threshold(&self) -> (r: u32)
        ensures
            r == end_hundredths(*self),
    {
        match self {
            VadSensitivity::Low => 12,
            VadSensitivity::Medium => 8,
            VadSensitivity::High => 3,
        }
    }
}

/// Speech is continued at a lower threshold than it starts at, and a higher
/// sensitivity lowers both.
pub proof fn law_sensitivity_orders_thresholds(s: VadSensitivity)
    ensures
        end_hundredths(s) < start_hundredths(s),
        start_hundredths(VadSensitivity::High) < start_hundredths(VadSensitivity::Medium),
        start_hundredths(VadSensitivity::Medium) < start_hundredths(VadSensitivity::Low),
        end_hundredths(VadSensitivity::High) < end_hundredths(VadSensitivity::Medium),
        end_hundredths(VadSensitivity::Medium) < end_hundredths(VadSensitivity::Low),
{
}

/// Common transcription options shared across all backends.
#[derive(Debug, Clone, Copy)]
pub struct CommonTranscriptionOptions<F> {
    /// Beam search width.
    pub beam_size: usize,
    /// Beam search patience factor.
    pub patience: F,
}

/// CTranslate2-specific transcription options.
#[derive(Debug, Clone, Copy)]
pub struct CT2Options<F> {
    /// Penalty for repeated tokens.
    pub repetition_penalty: F,
}

/// Whisper.cpp-specific transcription options.
#[derive(Debug, Clone)]
pub struct WhisperCppOptions<F> {
    pub temperature: F,
    pub suppress_blank: bool,
    pub no_context: bool,
    pub max_tokens: i32,
    /// Initial prompt to condition the model.
    pub initial_prompt: Option<String>,
}

/// Moonshine-specific options.
#[derive(Debug, Clone, Copy, PartialEq, Eq, Structural)]
pub struct MoonshineOptions {
    /// Whether to use the cached decoder.
    pub enable_cache: bool,
}

impl Default for MoonshineOptions {
    fn default() -> (r: Self)
        ensures
            !r.enable_cache,
    {
        MoonshineOptions { enable_cache: false }
    }
}

/// Parakeet TDT-specific options.
#[derive(Debug, Clone, Copy, PartialEq, Eq, Structural)]
pub struct ParakeetOptions {}

impl Default for ParakeetOptions {
    fn default() -> (r: Self)
        ensures
            r == (ParakeetOptions {  }),
    {
        ParakeetOptions {  }
    }
}

/// Nemotron-specific options.
#[derive(Debug, Clone)]
pub struct NemotronOptions {
    /// Locale to transcribe in; the application's language where blank.
    pub language: String,
}

impl Default for NemotronOptions {
    fn default() -> (r: Self)
        ensures
            r.language@.len() == 0,
    {
        NemotronOptions { language: String::new() }
    }
}

/// Configuration for Voice Activity Detection.
#[derive(Debug, Clone, Copy)]
pub struct VadConfigSerde<F> {
    /// VAD sensitivity preset.
    pub sensitivity: VadSensitivity,
    /// Number of frames before confirming speech.
    pub hangbefore_frames: usize,
    /// Number of frames after speech before ending segment.
    pub hangover_frames: usize,
    /// Number of non-speech frames to tolerate in PossibleSpeech before giving up.
    pub silence_tolerance_frames: usize,
    /// Exponential moving average smoothing factor.
    pub speech_prob_smoothing: F,
}

/// The fractional defaults of a configuration.
#[derive(Debug, Clone, Copy)]
pub struct ConfigNumbers<F> {
    pub max_buffer_duration_sec: F,
    pub chunk_duration_seconds: F,
    pub chunk_overlap_seconds: F,
    pub patience: F,
    pub repetition_penalty: F,
    pub temperature: F,
    pub speech_prob_smoothing: F,
}

/// The configuration of the whole pipeline.
#[derive(Debug, Clone)]
pub struct SpeechConfig<F> {
    /// General core configuration.
    pub general_config: GeneralConfig,
    /// Backend configuration (includes backend selection).
    pub backend_config: BackendConfig,
    /// Audio processing configuration.
    pub audio_processor_config: AudioProcessorConfig,
    /// Real-time transcription mode configuration.
    pub realtime_mode_config: RealtimeModeConfig<F>,
    /// Manual transcription mode configuration.
    pub manual_mode_config: ManualModeConfig<F>,
    /// Voice Activity Detection configuration.
    pub vad_config: VadConfigSerde<F>,
    /// Common transcription options shared across all backends.
    pub common_transcription_options: CommonTranscriptionOptions<F>,
    /// CTranslate2-specific options.
    pub ctranslate2_options: CT2Options<F>,
    /// Whisper.cpp-specific options.
    pub whisper_cpp_options: WhisperCppOptions<F>,
    /// Moonshine-specific options.
    pub moonshine_options: MoonshineOptions,
    /// Parakeet TDT-specific options.
    pub parakeet_options: ParakeetOptions,
    /// Nemotron-specific options.
    pub nemotron_options: NemotronOptions,
    /// Debug and development configuration.
    pub debug_config: DebugConfig,
    /// Transcription post-processing configuration.
    pub post_process_config: PostProcessConfig,
    /// Deprecated legacy field, superseded by `backend_config`.
    pub compute_type: Option<String>,
    /// Deprecated legacy field, superseded by `backend_config`.
    pub device: Option<String>,
}

impl<F> RealtimeModeConfig<F> {
    /// The default, with a duration of the VAD history.
    pub fn with_duration(max_buffer_duration_sec: F) -> (r: Self)
        ensures
            r == (RealtimeModeConfig { max_buffer_duration_sec, max_segment_count: 20 }),
    {
        RealtimeModeConfig { max_buffer_duration_sec, max_segment_count: 20 }
    }
}

impl<F> ManualModeConfig<F> {
    /// The default, with durations of chunks and of their overlap.
    pub fn with_chunks(chunk_duration_seconds: F, chunk_overlap_seconds: F) -> (r: Self)
        ensures
            r == (ManualModeConfig {
                max_recording_duration_secs: 120,
                clear_on_new_session: true,
                chunk_duration_seconds,
                enable_chunk_overlap: true,
                chunk_overlap_seconds,
                disable_chunking: false,
            }),
    {
        ManualModeConfig {
            max_recording_duration_secs: 120,
            clear_on_new_session: true,
            chunk_duration_seconds,
            enable_chunk_overlap: true,
            chunk_overlap_seconds,
            disable_chunking: false,
        }
    }
}

impl<F> CommonTranscriptionOptions<F> {
    /// The default, with a patience factor.
    pub fn with_patience(patience: F) -> (r: Self)
        ensures
            r == (CommonTranscriptionOptions { beam_size: 5, patience }),
    {
        CommonTranscriptionOptions { beam_size: 5, patience }
    }
}

impl<F> WhisperCppOptions<F> {
    /// The default, with a sampling temperature.
    pub fn with_temperature(temperature: F) -> (r: Self)
        ensures
            r == (WhisperCppOptions {
                temperature,
                suppress_blank: true,
                no_context: true,
                max_tokens: 0,
                initial_prompt: None,
            }),
    {
        WhisperCppOptions {
            temperature,
            suppress_blank: true,
            no_context: true,
            max_tokens: 0,
            initial_prompt: None,
        }
    }
}

impl<F> VadConfigSerde<F> {
    /// The default, with a smoothing factor.
    pub fn with_smoothing(speech_prob_smoothing: F) -> (r: Self)
        ensures
            r == (VadConfigSerde {
                sensitivity: VadSensitivity::Medium,
                hangbefore_frames: 5,
                hangover_frames: 30,
                silence_tolerance_frames: 8,
                speech_prob_smoothing,
            }),
    {
        VadConfigSerde {
            sensitivity: VadSensitivity::Medium,
            hangbefore_frames: 5,
            hangover_frames: 30,
            silence_tolerance_frames: 8,
            speech_prob_smoothing,
        }
    }
}

impl<F: Copy> CT2Options<F> {
    /// The options of a CTranslate2 transcription, combined with the common
    /// ones.
    pub fn to_whisper_options(&self, common_options: &CommonTranscriptionOptions<F>) -> (r:
        WhisperOptions<F>)
        ensures
            r == (WhisperOptions {
                beam_size: common_options.beam_size,
                patience: common_options.patience,
                repetition_penalty: self.repetition_penalty,
            }),
    {
        WhisperOptions {
            beam_size: common_options.beam_size,
            patience: common_options.patience,
            repetition_penalty: self.repetition_penalty,
        }
    }
}

impl<P: Copy> VadConfig<P> {
    /// The detector's configuration: 512-sample frames, the counts of
    /// `vad_config`, and the sizes and thresholds computed from the fractional
    /// settings.
    pub fn from_config(
        vad_config: &VadConfigSerde<P>,
        realtime_config: &RealtimeModeConfig<P>,
        sample_rate: usize,
        threshold: P,
        speech_end_threshold: P,
        hop_samples: usize,
        max_buffer_duration: usize,
    ) -> (r: Self)
        ensures
            r == (VadConfig {
                threshold,
                frame_size: 512,
                sample_rate,
                hangbefore_frames: vad_config.hangbefore_frames,
                hangover_frames: vad_config.hangover_frames,
                hop_samples,
                max_buffer_duration,
                max_segment_count: realtime_config.max_segment_count,
                silence_tolerance_frames: vad_config.silence_tolerance_frames,
                speech_end_threshold,
                speech_prob_smoothing: vad_config.speech_prob_smoothing,
            }),
    {
        VadConfig {
            threshold,
            frame_size: 512,
            sample_rate,
            hangbefore_frames: vad_config.hangbefore_frames,
            hangover_frames: vad_config.hangover_frames,
            hop_samples,
            max_buffer_duration,
            max_segment_count: realtime_config.max_segment_count,
            silence_tolerance_frames: vad_config.silence_tolerance_frames,
            speech_end_threshold,
            speech_prob_smoothing: vad_config.speech_prob_smoothing,
        }
    }
}

/// Whether nothing was chosen in a backend configuration, by an application
/// with the backends `features` on a machine with `cpus` CPUs: it is the default,
/// or has the default's threads and no GPU.
pub open spec fn is_unchosen(config: BackendConfig, features: BackendFeatures, cpus: usize) -> bool {
    ||| config == config_for(preferred_backend(features), cpus)
    ||| config.threads == threads_for(cpus) && !config.gpu_enabled
}

/// Whether the legacy fields of `c` are to be taken over: both are there, and
/// no backend configuration was chosen in their place.
pub open spec fn has_legacy_fields<F>(
    c: SpeechConfig<F>,
    features: BackendFeatures,
    cpus: usize,
) -> bool {
    &&& c.compute_type is Some
    &&& c.device is Some
    &&& is_unchosen(c.backend_config, features, cpus)
}

/// The configuration after migration. Legacy fields that are taken over go
/// away, and become a backend configuration where CTranslate2 was built;
/// whisper.cpp never reuses context; a temperature at its former default is
/// raised.
pub open spec fn migrated<F>(
    c: SpeechConfig<F>,
    features: BackendFeatures,
    cpus: usize,
    raised_temperature: Option<F>,
) -> SpeechConfig<F> {
    let legacy = has_legacy_fields(c, features, cpus);
    SpeechConfig {
        backend_config: if legacy && features.ctranslate2 {
            legacy_config(c.compute_type->0@, c.device->0@, threads_for(cpus))
        } else {
            c.backend_config
        },
        compute_type: if legacy { None } else { c.compute_type },
        device: if legacy { None } else { c.device },
        whisper_cpp_options: WhisperCppOptions {
            no_context: true,
            temperature: match raised_temperature {
                Some(t) => t,
                None => c.whisper_cpp_options.temperature,
            },
            ..c.whisper_cpp_options
        },
        ..c
    }
}

/// Legacy fields beside a backend configuration that was left at its default
/// are taken over: they go away, and what they stand for becomes the backend
/// configuration where CTranslate2 was built.
pub proof fn law_legacy_fields_replace_the_default<F>(
    c: SpeechConfig<F>,
    features: BackendFeatures,
    compute_type: String,
    device: String,
    cpus: usize,
    raised_temperature: Option<F>,
)
    requires
        c.backend_config == config_for(preferred_backend(features), cpus),
        c.compute_type == Some(compute_type),
        c.device == Some(device),
    ensures
        ({
            let after = migrated(c, features, cpus, raised_temperature);
            &&& after.compute_type is None
            &&& after.device is None
            &&& after.backend_config == (if features.ctranslate2 {
                legacy_config(compute_type@, device@, threads_for(cpus))
            } else {
                c.backend_config
            })
        }),
{
}

/// A backend configuration that was chosen counts, whatever the legacy fields
/// say: it stays as it is, and so do they.
pub proof fn law_chosen_backend_counts<F>(
    c: SpeechConfig<F>,
    features: BackendFeatures,
    cpus: usize,
    raised_temperature: Option<F>,
)
    requires
        c.backend_config.threads != threads_for(cpus) || (c.backend_config.gpu_enabled && (
        c.backend_config.backend != preferred_backend(features)
            || c.backend_config.quantization_level != QuantizationLevel::Medium)),
    ensures
        ({
            let after = migrated(c, features, cpus, raised_temperature);
            &&& after.backend_config == c.backend_config
            &&& after.compute_type == c.compute_type
            &&& after.device == c.device
        }),
{
}

/// Migrating again changes nothing.
pub proof fn law_migration_is_idempotent<F>(
    c: SpeechConfig<F>,
    features: BackendFeatures,
    cpus: usize,
    raised_temperature: Option<F>,
)
    ensures
        ({
            let once = migrated(c, features, cpus, raised_temperature);
            &&& migrated(once, features, cpus, raised_temperature) == once
            &&& migrated(once, features, cpus, None) == once
        }),
{
}

/// Whichever temperatures count as the former default, as long as the current
/// one does not: after migration none of them stands, any other is kept,
/// whisper.cpp reuses no context, and migrating again changes nothing.
pub proof fn law_temperature_is_raised_once<F>(
    c: SpeechConfig<F>,
    features: BackendFeatures,
    cpus: usize,
    is_former: spec_fn(F) -> bool,
    current: F,
)
    requires
        !is_former(current),
    ensures
        ({
            let raised = |t: F| if is_former(t) { Some(current) } else { None };
            let before = c.whisper_cpp_options.temperature;
            let once = migrated(c, features, cpus, raised(before));
            let after = once.whisper_cpp_options.temperature;
            &&& once.whisper_cpp_options.no_context
            &&& after == (if is_former(before) { current } else { before })
            &&& !is_former(after)
            &&& migrated(once, features, cpus, raised(after)) == once
        }),
{
}

impl<F: Copy> SpeechConfig<F> {
    /// The default configuration on this machine of an application with the
    /// backends `features`, with its fractional settings.
    pub fn with_numbers(features: BackendFeatures, n: ConfigNumbers<F>) -> (r: Self)
        ensures
            r.general_config.model@ == "small.en"@,
            r.general_config.language@ == "en"@,
            r.general_config.transcription_mode@ == "manual"@,
            r.backend_config == config_for(
                preferred_backend(features),
                r.backend_config.threads,
            ),
            1 <= r.backend_config.threads <= 4,
            r.audio_processor_config.buffer_size == 1024,
            r.realtime_mode_config == (RealtimeModeConfig {
                max_buffer_duration_sec: n.max_buffer_duration_sec,
                max_segment_count: 20,
            }),
            r.manual_mode_config == (ManualModeConfig {
                max_recording_duration_secs: 120,
                clear_on_new_session: true,
                chunk_duration_seconds: n.chunk_duration_seconds,
                enable_chunk_overlap: true,
                chunk_overlap_seconds: n.chunk_overlap_seconds,
                disable_chunking: false,
            }),
            r.vad_config == (VadConfigSerde {
                sensitivity: VadSensitivity::Medium,
                hangbefore_frames: 5,
                hangover_frames: 30,
                silence_tolerance_frames: 8,
                speech_prob_smoothing: n.speech_prob_smoothing,
            }),
            r.common_transcription_options == (CommonTranscriptionOptions {
                beam_size: 5,
                patience: n.patience,
            }),
            r.ctranslate2_options == (CT2Options { repetition_penalty: n.repetition_penalty }),
            r.whisper_cpp_options == (WhisperCppOptions {
                temperature: n.temperature,
                suppress_blank: true,
                no_context: true,
                max_tokens: 0,
                initial_prompt: None,
            }),
            !r.moonshine_options.enable_cache,
            r.nemotron_options.language@.len() == 0,
            !r.debug_config.log_stats_enabled,
            !r.debug_config.save_manual_audio_debug,
            r.debug_config.recording_dir@ == "recordings"@,
            r.post_process_config == (PostProcessConfig {
                enabled: true,
                remove_leading_dashes: true,
                remove_trailing_dashes: true,
                normalize_whitespace: true,
                remove_fillers: true,
                collapse_repeated_words: false,
                capitalize_sentences: false,
                ensure_terminal_punctuation: false,
            }),
            r.compute_type is None,
            r.device is None,
    {
        SpeechConfig {
            general_config: GeneralConfig::default(),
            backend_config: BackendConfig::default_for(features),
            audio_processor_config: AudioProcessorConfig::default(),
            realtime_mode_config: RealtimeModeConfig::with_duration(n.max_buffer_duration_sec),
            manual_mode_config: ManualModeConfig::with_chunks(
                n.chunk_duration_seconds,
                n.chunk_overlap_seconds,
            ),
            vad_config: VadConfigSerde::with_smoothing(n.speech_prob_smoothing),
            common_transcription_options: CommonTranscriptionOptions::with_patience(n.patience),
            ctranslate2_options: CT2Options { repetition_penalty: n.repetition_penalty },
            whisper_cpp_options: WhisperCppOptions::with_temperature(n.temperature),
            moonshine_options: MoonshineOptions::default(),
            parakeet_options: ParakeetOptions::default(),
            nemotron_options: NemotronOptions::default(),
            debug_config: DebugConfig::default(),
            post_process_config: PostProcessConfig::default(),
            compute_type: None,
            device: None,
        }
    }

    /// Migrates legacy fields, in an application with the backends `features` on a
    /// machine with `cpus` CPUs. `raised_temperature` is the temperature to take where the one that
    /// stands is the former default.
    pub fn migrate_legacy_config_on(
        &mut self,
        features: BackendFeatures,
        cpus: usize,
        raised_temperature: Option<F>,
    )
        ensures
            *final(self) == migrated(*old(self), features, cpus, raised_temperature),
    {
        let mut legacy = false;
        let mut replacement: Option<BackendConfig> = None;
        if let (Some(compute_type), Some(device)) = (&self.compute_type, &self.device) {
            let default = BackendConfig::with_cpus(BackendType::default_for(features), cpus);
            if self.backend_config == default || (self.backend_config.threads == default.threads
                && !self.backend_config.gpu_enabled) {
                legacy = true;
                if features.ctranslate2 {
                    replacement = Some(
                        migrate_legacy_config_on(
                            compute_type.as_str(),
                            device.as_str(),
                            None,
                            cpus,
                        ),
                    );
                }
            }
        }
        if let Some(config) = replacement {
            self.backend_config = config;
        }
        if legacy {
            self.compute_type = None;
            self.device = None;
        }
        self.whisper_cpp_options.no_context = true;
        if let Some(t) = raised_temperature {
            self.whisper_cpp_options.temperature = t;
        }
    }

    /// Migrates legacy fields on this machine.
    pub fn migrate_legacy_config(
        &mut self,
        features: BackendFeatures,
        raised_temperature: Option<F>,
    )
        ensures
            exists|cpus: usize|
                cpus >= 1 && *final(self) == #[trigger] migrated(
                    *old(self),
                    features,
                    cpus,
                    raised_temperature,
                ),
    {
        self.migrate_legacy_config_on(features, cpu_count(), raised_temperature);
    }
}

/// Legacy configuration migration of CTranslate2's fields: what
/// [`migrate_legacy_config`] makes of them.
pub fn migrate_legacy_ctranslate2_config(
    compute_type: &str,
    device: &str,
    threads: Option<usize>,
) -> (r: BackendConfig)
    ensures
        call_ensures(migrate_legacy_config, (compute_type, device, threads), r),
        threads matches Some(n) ==> r == legacy_config(compute_type@, device@, n),
        exists|cpus: usize|
            cpus >= 1 && r == #[trigger] legacy_config_on(compute_type@, device@, threads, cpus),
{
    migrate_legacy_config(compute_type, device, threads)
}

/// Both ways of migrating legacy fields come to the same, with a number of
/// threads; without one, each counts the machine's CPUs anew, and only the
/// number of threads can differ.
pub proof fn law_legacy_migrations_agree(
    compute_type: &str,
    device: &str,
    threads: Option<usize>,
    a: BackendConfig,
    b: BackendConfig,
)
    requires
        call_ensures(migrate_legacy_config, (compute_type, device, threads), a),
        call_ensures(migrate_legacy_ctranslate2_config, (compute_type, device, threads), b),
    ensures
        threads is Some ==> a == b,
        a == (BackendConfig { threads: a.threads, ..b }),
        threads is None ==> 1 <= a.threads <= 4 && 1 <= b.threads <= 4,
        a.threads == b.threads ==> a == b,
{
}

} // verus!
