//! Transcription backends: which there are, how they are configured, what they
//! can do, and the part of each that is not inference.

pub mod ctranslate2;
pub mod factory;
pub mod files;
pub mod mel;
pub mod moonshine;
pub mod nemotron;
pub mod onnx_utils;
pub mod parakeet;
pub mod traits;
pub mod whisper_cpp;

use vstd::prelude::*;

use crate::backend::ctranslate2::CT2Backend;
use crate::backend::moonshine::backend::MoonshineBackend;
use crate::backend::nemotron::backend::NemotronBackend;
use crate::backend::parakeet::backend::ParakeetBackend;
use crate::backend::whisper_cpp::WhisperCppBackend;

verus! {

/// Identifies which backend implementation to use.
#[derive(Debug, Clone, Copy, PartialEq, Eq, Structural)]
pub enum BackendType {
    /// CTranslate2 backend.
    CTranslate2,
    /// whisper.cpp backend.
    WhisperCpp,
    /// Moonshine ONNX backend.
    Moonshine,
    /// NVIDIA Parakeet backend.
    Parakeet,
    /// NVIDIA Nemotron backend.
    Nemotron,
}

/// Which backends an application was built with.
#[derive(Debug, Clone, Copy, PartialEq, Eq, Structural)]
pub struct BackendFeatures {
    pub ctranslate2: bool,
    pub whisper_cpp: bool,
    pub moonshine: bool,
    pub parakeet: bool,
    pub nemotron: bool,
}

/// Whether a backend is among those built.
pub open spec fn has_backend(features: BackendFeatures, backend: BackendType) -> bool {
    match backend {
        BackendType::CTranslate2 => features.ctranslate2,
        BackendType::WhisperCpp => features.whisper_cpp,
        BackendType::Moonshine => features.moonshine,
        BackendType::Parakeet => features.parakeet,
        BackendType::Nemotron => features.nemotron,
    }
}

impl BackendFeatures {
    /// Tests whether a backend is among those built.
    pub fn has(&self, backend: BackendType) -> (r: bool)
        ensures
            r == has_backend(*self, backend),
    {
        match backend {
            BackendType::CTranslate2 => self.ctranslate2,
            BackendType::WhisperCpp => self.whisper_cpp,
            BackendType::Moonshine => self.moonshine,
            BackendType::Parakeet => self.parakeet,
            BackendType::Nemotron => self.nemotron,
        }
    }
}

/// The name of a backend in configuration files and messages.
pub open spec fn backend_text(b: BackendType) -> Seq<char> {
    match b {
        BackendType::CTranslate2 => "ctranslate2"@,
        BackendType::WhisperCpp => "whisper_cpp"@,
        BackendType::Moonshine => "moonshine"@,
        BackendType::Parakeet => "parakeet"@,
        BackendType::Nemotron => "nemotron"@,
    }
}

/// The name of a backend on display.
pub open spec fn display_name(b: BackendType) -> Seq<char> {
    match b {
        BackendType::CTranslate2 => "CTranslate2"@,
        BackendType::WhisperCpp => "WhisperCpp"@,
        BackendType::Moonshine => "Moonshine"@,
        BackendType::Parakeet => "Parakeet"@,
        BackendType::Nemotron => "Nemotron"@,
    }
}

/// The backend used when none is chosen: the first of CTranslate2, Moonshine,
/// Parakeet and whisper.cpp that was built, else CTranslate2.
pub open spec fn preferred_backend(f: BackendFeatures) -> BackendType {
    if f.ctranslate2 {
        BackendType::CTranslate2
    } else if f.moonshine {
        BackendType::Moonshine
    } else if f.parakeet {
        BackendType::Parakeet
    } else if f.whisper_cpp {
        BackendType::WhisperCpp
    } else {
        BackendType::CTranslate2
    }
}

impl BackendType {
    /// The name of the backend in configuration files and messages.
    pub fn to_string(&self) -> (r: String)
        ensures
            r@ == backend_text(*self),
    {
        match self {
            BackendType::CTranslate2 => "ctranslate2".to_owned(),
            BackendType::WhisperCpp => "whisper_cpp".to_owned(),
            BackendType::Moonshine => "moonshine".to_owned(),
            BackendType::Parakeet => "parakeet".to_owned(),
            BackendType::Nemotron => "nemotron".to_owned(),
        }
    }

    /// The name of the backend on display.
    pub fn display_name(&self) -> (r: String)
        ensures
            r@ == display_name(*self),
    {
        match self {
            BackendType::CTranslate2 => "CTranslate2".to_owned(),
            BackendType::WhisperCpp => "WhisperCpp".to_owned(),
            BackendType::Moonshine => "Moonshine".to_owned(),
            BackendType::Parakeet => "Parakeet".to_owned(),
            BackendType::Nemotron => "Nemotron".to_owned(),
        }
    }

    /// The backend used when none is chosen, given those built.
    pub fn default_for(features: BackendFeatures) -> (r: Self)
        ensures
            r == preferred_backend(features),
    {
        if features.ctranslate2 {
            BackendType::CTranslate2
        } else if features.moonshine {
            BackendType::Moonshine
        } else if features.parakeet {
            BackendType::Parakeet
        } else if features.whisper_cpp {
            BackendType::WhisperCpp
        } else {
            BackendType::CTranslate2
        }
    }
}

/// The default of an application that has CTranslate2, or no backend at all. That
/// of another follows the backends it was built with, which a library cannot
/// see: [`BackendType::default_for`] takes them.
impl Default for BackendType {
    fn default() -> (r: Self)
        ensures
            r == BackendType::CTranslate2,
    {
        BackendType::CTranslate2
    }
}

/// The preferred backend is one of those built, whenever any of the four it is
/// picked from is.
pub proof fn law_preferred_backend_is_built(f: BackendFeatures)
    requires
        f.ctranslate2 || f.moonshine || f.parakeet || f.whisper_cpp,
    ensures
        has_backend(f, preferred_backend(f)),
{
}

/// Quantization level for model inference. Backends interpret this based on
/// their capabilities.
#[derive(Debug, Clone, Copy, PartialEq, Eq, Structural)]
pub enum QuantizationLevel {
    /// Highest precision, slower inference.
    High,
    /// Balanced precision and speed.
    Medium,
    /// Lowest precision, fastest inference.
    Low,
}

impl Default for QuantizationLevel {
    fn default() -> (r: Self)
        ensures
            r == QuantizationLevel::Medium,
    {
        QuantizationLevel::Medium
    }
}

/// Backend-agnostic configuration for transcription.
#[derive(Debug, Clone, Copy, PartialEq, Eq, Structural)]
pub struct BackendConfig {
    /// Backend type to use.
    pub backend: BackendType,
    /// Number of CPU threads to use for inference.
    pub threads: usize,
    /// Whether to enable GPU acceleration if available.
    pub gpu_enabled: bool,
    /// Quantization level for model weights.
    pub quantization_level: QuantizationLevel,
}

/// The number of threads used on a machine with `cpus` of them: at most four.
pub open spec fn threads_for(cpus: usize) -> usize {
    if cpus <= 4 {
        cpus
    } else {
        4
    }
}

/// The configuration used on a machine with `cpus` CPUs when none is given.
pub open spec fn config_for(backend: BackendType, cpus: usize) -> BackendConfig {
    BackendConfig {
        backend,
        threads: threads_for(cpus),
        gpu_enabled: true,
        quantization_level: QuantizationLevel::Medium,
    }
}

/// Calls `num_cpus::get`, which answers at least one. The number depends on
/// the machine, so nothing else is said of it.
#[verifier::external_body]
pub(crate) fn cpu_count() -> (r: usize)
    ensures
        r >= 1,
{
    num_cpus::get()
}

/// The number of threads used on a machine with `cpus` of them.
pub fn capped_threads(cpus: usize) -> (r: usize)
    ensures
        r == threads_for(cpus),
{
    if cpus <= 4 {
        cpus
    } else {
        4
    }
}

impl BackendConfig {
    /// The configuration used on a machine with `cpus` CPUs when none is
    /// given.
    pub fn with_cpus(backend: BackendType, cpus: usize) -> (r: Self)
        ensures
            r == config_for(backend, cpus),
    {
        BackendConfig {
            backend,
            threads: capped_threads(cpus),
            gpu_enabled: true,
            quantization_level: QuantizationLevel::Medium,
        }
    }

    /// The configuration used on this machine when none is given, by an
    /// application with the backends `features`.
    pub fn default_for(features: BackendFeatures) -> (r: Self)
        ensures
            r == config_for(preferred_backend(features), r.threads),
            1 <= r.threads <= 4,
    {
        BackendConfig::with_cpus(BackendType::default_for(features), cpu_count())
    }
}

/// The default of an application that has CTranslate2, or no backend at all:
/// [`BackendConfig::default_for`] takes the backends that it was built with.
impl Default for BackendConfig {
    fn default() -> (r: Self)
        ensures
            r == config_for(BackendType::CTranslate2, r.threads),
            1 <= r.threads <= 4,
    {
        BackendConfig::with_cpus(BackendType::CTranslate2, cpu_count())
    }
}

/// What a backend reports of itself.
#[derive(Debug, Clone)]
pub struct BackendCapabilities {
    /// Backend name for display.
    pub name: &'static str,
    /// Maximum audio duration this backend can handle, in seconds.
    pub max_audio_duration: Option<u32>,
    /// Supported languages; all of them where there is no list.
    pub supported_languages: Option<Vec<String>>,
    /// Whether this backend supports streaming transcription.
    pub supports_streaming: bool,
    /// Whether GPU acceleration is enabled.
    pub gpu_available: bool,
}

/// The backend in use.
#[derive(Debug)]
pub enum TranscriptionBackend<S> {
    CTranslate2(CT2Backend),
    WhisperCpp(WhisperCppBackend),
    Moonshine(MoonshineBackend),
    Parakeet(ParakeetBackend),
    Nemotron(NemotronBackend<S>),
}

/// The type of a backend.
pub open spec fn type_of<S>(b: TranscriptionBackend<S>) -> BackendType {
    match b {
        TranscriptionBackend::CTranslate2(_) => BackendType::CTranslate2,
        TranscriptionBackend::WhisperCpp(_) => BackendType::WhisperCpp,
        TranscriptionBackend::Moonshine(_) => BackendType::Moonshine,
        TranscriptionBackend::Parakeet(_) => BackendType::Parakeet,
        TranscriptionBackend::Nemotron(_) => BackendType::Nemotron,
    }
}

/// The longest audio, in seconds, that a backend takes at once.
pub open spec fn longest_audio(b: BackendType) -> Option<u32> {
    match b {
        BackendType::CTranslate2 => Some(60),
        BackendType::Parakeet => Some(90),
        _ => None,
    }
}

/// Whether a backend streams.
pub open spec fn streams(b: BackendType) -> bool {
    b == BackendType::Moonshine || b == BackendType::Nemotron
}

impl<S: Copy> TranscriptionBackend<S> {
    /// Get the backend type.
    pub fn backend_type(&self) -> (r: BackendType)
        ensures
            r == type_of(*self),
    {
        match self {
            TranscriptionBackend::CTranslate2(_) => BackendType::CTranslate2,
            TranscriptionBackend::WhisperCpp(_) => BackendType::WhisperCpp,
            TranscriptionBackend::Moonshine(_) => BackendType::Moonshine,
            TranscriptionBackend::Parakeet(_) => BackendType::Parakeet,
            TranscriptionBackend::Nemotron(_) => BackendType::Nemotron,
        }
    }

    /// The configuration a backend was made with.
    pub open spec fn config(self) -> BackendConfig {
        match self {
            TranscriptionBackend::CTranslate2(b) => b.config,
            TranscriptionBackend::WhisperCpp(b) => b.config,
            TranscriptionBackend::Moonshine(b) => b.config,
            TranscriptionBackend::Parakeet(b) => b.config,
            TranscriptionBackend::Nemotron(b) => b.configuration(),
        }
    }

    /// Get backend capabilities.
    pub fn capabilities(&self) -> (r: BackendCapabilities)
        ensures
            r.name@ == (match type_of(*self) {
                BackendType::CTranslate2 => "CTranslate2"@,
                BackendType::WhisperCpp => "whisper.cpp"@,
                BackendType::Moonshine => "Moonshine"@,
                BackendType::Parakeet => "Parakeet TDT"@,
                BackendType::Nemotron => "nemotron-3.5-asr"@,
            }),
            r.max_audio_duration == longest_audio(type_of(*self)),
            match type_of(*self) {
                BackendType::Parakeet => r.supported_languages matches Some(l)
                    && crate::text::strings::views(l@)
                    == crate::backend::parakeet::backend::parakeet_languages(),
                BackendType::Nemotron => r.supported_languages matches Some(l)
                    && crate::text::strings::views(l@)
                    == crate::backend::nemotron::lang::offered_locales(),
                _ => r.supported_languages is None,
            },
            r.supports_streaming == streams(type_of(*self)),
            r.gpu_available == self.config().gpu_enabled,
    {
        match self {
            TranscriptionBackend::CTranslate2(b) => b.capabilities(),
            TranscriptionBackend::WhisperCpp(b) => b.capabilities(),
            TranscriptionBackend::Moonshine(b) => b.capabilities(),
            TranscriptionBackend::Parakeet(b) => b.capabilities(),
            TranscriptionBackend::Nemotron(b) => b.capabilities(),
        }
    }

    /// Whether the backend streams.
    pub fn supports_streaming(&self) -> (r: bool)
        ensures
            r == streams(type_of(*self)),
    {
        self.capabilities().supports_streaming
    }
}

/// Of the backends built CTranslate2 is preferred, then Moonshine, then Parakeet,
/// then whisper.cpp.
pub proof fn law_backends_are_preferred_in_order(f: BackendFeatures)
    ensures
        f.ctranslate2 ==> preferred_backend(f) == BackendType::CTranslate2,
        !f.ctranslate2 && f.moonshine ==> preferred_backend(f) == BackendType::Moonshine,
        !f.ctranslate2 && !f.moonshine && f.parakeet ==> preferred_backend(f)
            == BackendType::Parakeet,
        !f.ctranslate2 && !f.moonshine && !f.parakeet && f.whisper_cpp ==> preferred_backend(f)
            == BackendType::WhisperCpp,
{
}

/// As many threads are used as there are CPUs, and never more than four.
pub proof fn law_threads_are_capped(cpus: usize)
    ensures
        threads_for(cpus) <= cpus,
        threads_for(cpus) <= 4,
        threads_for(cpus) == cpus || threads_for(cpus) == 4,
{
}

/// CTranslate2 takes a minute of audio at once, Parakeet a minute and a half, and
/// the others any length; Moonshine and Nemotron stream, and the others do not.
pub proof fn law_what_backends_take(b: BackendType)
    ensures
        longest_audio(BackendType::CTranslate2) == Some(60u32),
        longest_audio(BackendType::Parakeet) == Some(90u32),
        longest_audio(b) is None <==> b != BackendType::CTranslate2 && b != BackendType::Parakeet,
        streams(b) <==> b == BackendType::Moonshine || b == BackendType::Nemotron,
{
}

/// Every backend has a name of its own, in configuration files and on display.
pub proof fn law_backends_have_names_of_their_own(a: BackendType, b: BackendType)
    requires
        a != b,
    ensures
        backend_text(a) != backend_text(b),
        display_name(a) != display_name(b),
{
    reveal_strlit("ctranslate2");
    reveal_strlit("whisper_cpp");
    reveal_strlit("moonshine");
    reveal_strlit("parakeet");
    reveal_strlit("nemotron");
    reveal_strlit("CTranslate2");
    reveal_strlit("WhisperCpp");
    reveal_strlit("Moonshine");
    reveal_strlit("Parakeet");
    reveal_strlit("Nemotron");
    assert(backend_text(a)[0] == initial(a));
    assert(backend_text(b)[0] == initial(b));
    assert(display_name(a)[0] == capital_initial(a));
    assert(display_name(b)[0] == capital_initial(b));
}

spec fn initial(b: BackendType) -> char {
    match b {
        BackendType::CTranslate2 => 'c',
        BackendType::WhisperCpp => 'w',
        BackendType::Moonshine => 'm',
        BackendType::Parakeet => 'p',
        BackendType::Nemotron => 'n',
    }
}

spec fn capital_initial(b: BackendType) -> char {
    match b {
        BackendType::CTranslate2 => 'C',
        BackendType::WhisperCpp => 'W',
        BackendType::Moonshine => 'M',
        BackendType::Parakeet => 'P',
        BackendType::Nemotron => 'N',
    }
}

} // verus!
