use speechcore::backend::ctranslate2::{
    migrate_legacy_config, migrate_legacy_config_on, CT2Backend, ComputeType, Device,
};
use speechcore::backend::factory::{
    create_backend, download_error, extract_whisper_cpp_model_name, validate_model_path,
    whisper_cpp_filename, CreatePlan, ModelFacts,
};
use speechcore::backend::moonshine::backend::MoonshineBackend;
use speechcore::backend::nemotron::backend::NemotronBackend;
use speechcore::backend::onnx_utils::{ExecutionProviderPreference, OnnxSessionOptions};
use speechcore::backend::parakeet::backend::ParakeetBackend;
use speechcore::backend::traits::{TranscriptionError, TranscriptionResult};
use speechcore::backend::whisper_cpp::{
    whisper_error, SamplingStrategy, WhisperCppBackend, WhisperFailure,
};
use speechcore::backend::{
    BackendCapabilities, BackendConfig, BackendFeatures, BackendType, QuantizationLevel,
    TranscriptionBackend,
};
use speechcore::config::{CommonTranscriptionOptions, WhisperCppOptions};

const ALL: BackendFeatures = BackendFeatures {
    ctranslate2: true,
    whisper_cpp: true,
    moonshine: true,
    parakeet: true,
    nemotron: true,
};

const NONE: BackendFeatures = BackendFeatures {
    ctranslate2: false,
    whisper_cpp: false,
    moonshine: false,
    parakeet: false,
    nemotron: false,
};

#[test]
fn test_backend_type_display() {
    assert_eq!(BackendType::CTranslate2.to_string(), "ctranslate2");
    assert_eq!(BackendType::WhisperCpp.to_string(), "whisper_cpp");
    assert_eq!(BackendType::Parakeet.to_string(), "parakeet");
}

#[test]
fn default_backend_prefers_ctranslate2_when_available() {
    assert_eq!(BackendType::default(), BackendType::CTranslate2);
    assert_eq!(BackendConfig::default().backend, BackendType::CTranslate2);
}

#[test]
fn test_config_interpretation() {
    let config = BackendConfig {
        backend: BackendType::WhisperCpp,
        threads: 4,
        gpu_enabled: false,
        quantization_level: QuantizationLevel::Medium,
    };

    // Just verify the config structure
    assert_eq!(config.threads, 4);
    assert!(!config.gpu_enabled);
}

#[test]
fn test_capabilities() {
    let config = BackendConfig::default();
    let caps = BackendCapabilities {
        name: "whisper.cpp",
        max_audio_duration: None, // No hard limit
        supported_languages: None,
        supports_streaming: false,
        gpu_available: config.gpu_enabled,
    };

    assert_eq!(caps.name, "whisper.cpp");
    assert_eq!(caps.max_audio_duration, None);
}

#[test]
fn test_config_mapping() {
    let backend_config = BackendConfig {
        backend: BackendType::CTranslate2,
        threads: 4,
        gpu_enabled: false,
        quantization_level: QuantizationLevel::Medium,
    };

    let ct2_config = CT2Backend::map_config(&backend_config);

    assert_eq!(ct2_config.device, Device::CPU);
    assert_eq!(ct2_config.compute_type, ComputeType::INT8);
    assert_eq!(ct2_config.num_threads_per_replica, 4);
}

#[test]
fn test_legacy_migration() {
    let backend_config = migrate_legacy_config("INT8", "CPU", Some(4));

    assert!(!backend_config.gpu_enabled);
    assert_eq!(backend_config.quantization_level, QuantizationLevel::Medium);
    assert_eq!(backend_config.threads, 4);
}

#[test]
fn test_gpu_config() {
    let backend_config = BackendConfig {
        backend: BackendType::CTranslate2,
        threads: 4,
        gpu_enabled: true,
        quantization_level: QuantizationLevel::High,
    };

    let ct2_config = CT2Backend::map_config(&backend_config);

    assert_eq!(ct2_config.device, Device::CUDA);
    assert_eq!(ct2_config.compute_type, ComputeType::FLOAT16);
}

#[test]
fn the_preferred_backend_is_built() {
    assert_eq!(BackendType::default_for(ALL), BackendType::CTranslate2);
    assert_eq!(
        BackendType::default_for(BackendFeatures { moonshine: true, parakeet: true, ..NONE }),
        BackendType::Moonshine
    );
    assert_eq!(
        BackendType::default_for(BackendFeatures { parakeet: true, whisper_cpp: true, ..NONE }),
        BackendType::Parakeet
    );
    assert_eq!(
        BackendType::default_for(BackendFeatures { whisper_cpp: true, ..NONE }),
        BackendType::WhisperCpp
    );
    assert_eq!(BackendType::default_for(NONE), BackendType::CTranslate2);
    assert!(ALL.has(BackendType::Nemotron));
    assert!(!NONE.has(BackendType::Nemotron));
}

#[test]
fn threads_are_capped() {
    assert_eq!(BackendConfig::with_cpus(BackendType::Parakeet, 16).threads, 4);
    assert_eq!(BackendConfig::with_cpus(BackendType::Parakeet, 2).threads, 2);
    let machine = BackendConfig::default();
    assert!(machine.threads >= 1 && machine.threads <= 4);
    assert_eq!(machine.threads, num_cpus::get().min(4));
    assert!(machine.gpu_enabled);
    assert_eq!(machine.quantization_level, QuantizationLevel::Medium);
}

#[test]
fn legacy_fields_are_read_in_any_case() {
    let config = migrate_legacy_config_on("float16", "cuda:0", None, 8);
    assert_eq!(config.quantization_level, QuantizationLevel::High);
    assert!(config.gpu_enabled);
    assert_eq!(config.threads, 4);
    assert_eq!(
        migrate_legacy_config("Int16", "my gpu", Some(1)).quantization_level,
        QuantizationLevel::Low
    );
    assert!(migrate_legacy_config("Int16", "my gpu", Some(1)).gpu_enabled);
    assert_eq!(
        migrate_legacy_config("whatever", "", None).quantization_level,
        QuantizationLevel::Medium
    );
    assert_eq!(migrate_legacy_config("auto", "", None).threads, num_cpus::get().min(4));
}

#[test]
fn ct2_transcript_is_the_first() {
    assert_eq!(CT2Backend::transcript(&vec![]), "");
    assert_eq!(CT2Backend::transcript(&vec!["a".to_string(), "b".to_string()]), "a");
}

#[test]
fn session_options_follow_the_configuration() {
    let config = BackendConfig::with_cpus(BackendType::Moonshine, 3);
    assert_eq!(
        OnnxSessionOptions::from_config(&config),
        OnnxSessionOptions {
            intra_threads: 3,
            inter_threads: 1,
            execution_provider: ExecutionProviderPreference::PreferGpu,
        }
    );
    assert_eq!(OnnxSessionOptions::default().intra_threads, 1);
    let idle = BackendConfig { threads: 0, gpu_enabled: false, ..config };
    let options = NemotronBackend::<u8>::new(&idle).session_options();
    assert_eq!(options.intra_threads, 1);
    assert_eq!(options.execution_provider, ExecutionProviderPreference::CpuOnly);
}

#[test]
fn capabilities_by_backend() {
    let config = BackendConfig { gpu_enabled: false, ..BackendConfig::default() };
    let backends: Vec<TranscriptionBackend<u8>> = vec![
        TranscriptionBackend::CTranslate2(CT2Backend { config }),
        TranscriptionBackend::WhisperCpp(WhisperCppBackend { config }),
        TranscriptionBackend::Moonshine(MoonshineBackend { config }),
        TranscriptionBackend::Parakeet(ParakeetBackend { config }),
        TranscriptionBackend::Nemotron(NemotronBackend::new(&config)),
    ];
    let limits: Vec<Option<u32>> =
        backends.iter().map(|b| b.capabilities().max_audio_duration).collect();
    assert_eq!(limits, vec![Some(60), None, None, Some(90), None]);
    let streaming: Vec<bool> = backends.iter().map(|b| b.supports_streaming()).collect();
    assert_eq!(streaming, vec![false, false, true, false, true]);
    let names: Vec<&str> = backends.iter().map(|b| b.capabilities().name).collect();
    assert_eq!(
        names,
        vec!["CTranslate2", "whisper.cpp", "Moonshine", "Parakeet TDT", "nemotron-3.5-asr"]
    );
    assert_eq!(backends[3].backend_type(), BackendType::Parakeet);
    let languages = backends[3].capabilities().supported_languages.unwrap();
    assert_eq!(languages.len(), 25);
    assert_eq!(languages[24], "ca");
    assert!(!backends[0].capabilities().gpu_available);
}

#[test]
fn whisper_cpp_parameters() {
    let backend = WhisperCppBackend { config: BackendConfig::with_cpus(BackendType::WhisperCpp, 4) };
    let common = CommonTranscriptionOptions { beam_size: 5, patience: 1.0f32 };
    let mut options = WhisperCppOptions::with_temperature(0.2f32);
    let params = backend.transcribe_params(16000 * 31, "en", &common, &options, 16000);
    assert!(matches!(params.strategy, SamplingStrategy::BeamSearch { beam_size: 5, .. }));
    assert_eq!(params.threads, 4);
    assert_eq!(params.max_tokens, None);
    assert_eq!(params.initial_prompt, None);
    assert!(!params.single_segment);
    options.max_tokens = 7;
    options.initial_prompt = Some("before".to_string());
    let greedy = CommonTranscriptionOptions { beam_size: 1, patience: 1.0f32 };
    let params = backend.transcribe_params(16000 * 31 - 1, "en", &greedy, &options, 16000);
    assert!(matches!(params.strategy, SamplingStrategy::Greedy { best_of: 1 }));
    assert_eq!(params.max_tokens, Some(7));
    assert_eq!(params.initial_prompt.as_deref(), Some("before"));
    assert!(params.single_segment);
    options.initial_prompt = Some(String::new());
    assert_eq!(
        backend.transcribe_params(0, "en", &greedy, &options, 1).initial_prompt,
        None
    );
    assert_eq!(
        WhisperCppBackend::transcript(&vec![" a".to_string(), " b.".to_string()]),
        " a b."
    );
}

#[test]
fn model_names_are_told_from_files() {
    assert_eq!(extract_whisper_cpp_model_name("/path/to/ggml-base.en.bin").unwrap(), "base.en");
    assert_eq!(extract_whisper_cpp_model_name("/path/to/ggml-small-q5_1.bin").unwrap(), "small");
    assert_eq!(
        extract_whisper_cpp_model_name("ggml-large-v3-turbo.bin").unwrap(),
        "large-v3-turbo"
    );
    assert_eq!(extract_whisper_cpp_model_name("my-quick.bin").unwrap(), "my-quick");
    assert_eq!(
        extract_whisper_cpp_model_name("models/..").unwrap_err().to_string(),
        "Configuration error: Invalid model path: models/.."
    );
    for level in [QuantizationLevel::High, QuantizationLevel::Medium, QuantizationLevel::Low] {
        let file = whisper_cpp_filename("medium.en", level);
        assert_eq!(extract_whisper_cpp_model_name(&file).unwrap(), "medium.en");
    }
    let file = whisper_cpp_filename("my-quick", QuantizationLevel::High);
    assert_eq!(extract_whisper_cpp_model_name(&file).unwrap(), "my-quick");
    assert_eq!(whisper_cpp_filename("base", QuantizationLevel::Medium), "ggml-base-q8_0.bin");
}

#[test]
fn creation_plans() {
    let refused = create_backend(BackendType::Moonshine, "m", true, NONE).unwrap_err();
    assert_eq!(
        refused.to_string(),
        "Backend not implemented: moonshine backend is disabled; enable speechcore feature `backend-moonshine`"
    );
    assert!(matches!(
        create_backend(BackendType::CTranslate2, "m", false, ALL),
        Ok(CreatePlan::Load)
    ));
    match create_backend(BackendType::WhisperCpp, "m/ggml-tiny-q8_0.bin", false, ALL) {
        Ok(CreatePlan::DownloadAndLoad(name)) => assert_eq!(name, "tiny"),
        other => panic!("{:?}", other),
    }
    assert!(matches!(
        create_backend(BackendType::WhisperCpp, "m/ggml-tiny.bin", true, ALL),
        Ok(CreatePlan::Load)
    ));
    assert_eq!(
        download_error("404").to_string(),
        "Model not available: Failed to download whisper.cpp model: 404"
    );
}

fn facts(is_dir: bool, present: &[&str]) -> ModelFacts {
    ModelFacts {
        exists: true,
        is_dir,
        is_file: !is_dir,
        present: present.iter().map(|s| s.to_string()).collect(),
    }
}

fn refusal(backend: BackendType, path: &str, facts: &ModelFacts) -> String {
    validate_model_path(backend, path, facts, ALL).unwrap_err().to_string()
}

#[test]
fn model_paths_are_validated() {
    let gone = ModelFacts { exists: false, is_dir: false, is_file: false, present: vec![] };
    assert_eq!(
        refusal(BackendType::CTranslate2, "x", &gone),
        "I/O error: Model path does not exist: x"
    );
    assert_eq!(
        refusal(BackendType::CTranslate2, "x", &facts(false, &[])),
        "Configuration error: CTranslate2 models must be directories containing model files"
    );
    assert_eq!(
        refusal(BackendType::CTranslate2, "x", &facts(true, &["config.json"])),
        "Configuration error: CTranslate2 model directory missing model.bin file"
    );
    assert!(validate_model_path(
        BackendType::CTranslate2,
        "x",
        &facts(true, &["model.bin"]),
        ALL
    )
    .is_ok());
    assert_eq!(
        refusal(BackendType::WhisperCpp, "x.bin", &facts(true, &[])),
        "Configuration error: whisper.cpp models must be .bin files in GGML format"
    );
    assert_eq!(
        refusal(BackendType::WhisperCpp, "a.b/x", &facts(false, &[])),
        "Configuration error: whisper.cpp models must have .bin extension"
    );
    assert!(validate_model_path(BackendType::WhisperCpp, "x.bin", &facts(false, &[]), ALL).is_ok());
    assert_eq!(
        refusal(BackendType::Parakeet, "x", &facts(false, &[])),
        "Configuration error: Parakeet models must be directories"
    );
    assert_eq!(
        refusal(
            BackendType::Parakeet,
            "x",
            &facts(true, &["encoder.onnx", "decoder.int8.onnx", "joiner.onnx"])
        ),
        "Configuration error: Parakeet model directory invalid: Missing Parakeet tokens.txt"
    );
    assert_eq!(
        refusal(BackendType::Moonshine, "x", &facts(true, &["preprocess.onnx"])),
        "Configuration error: Moonshine model directory invalid: Missing Moonshine encoder model: x/encode.onnx"
    );
    assert_eq!(
        refusal(BackendType::Nemotron, "x", &facts(true, &["encoder.onnx"])),
        "Configuration error: Nemotron model directory invalid: Missing Nemotron model file: decoder.onnx"
    );
    assert!(validate_model_path(BackendType::WhisperCpp, "x.bin", &facts(false, &[]), NONE)
        .is_err());
}

#[test]
fn errors_and_results() {
    let cases = [
        (TranscriptionError::ModelNotAvailable("a".to_string()), "Model not available: a"),
        (TranscriptionError::InferenceError("b".to_string()), "Inference error: b"),
        (TranscriptionError::InvalidAudio("c".to_string()), "Invalid audio: c"),
        (TranscriptionError::UnsupportedLanguage("d".to_string()), "Unsupported language: d"),
        (TranscriptionError::BackendNotImplemented("e".to_string()), "Backend not implemented: e"),
        (TranscriptionError::ConfigurationError("f".to_string()), "Configuration error: f"),
        (TranscriptionError::IoError("g".to_string()), "I/O error: g"),
    ];
    for (error, text) in cases {
        assert_eq!(error.to_string(), text);
    }
    let plain = TranscriptionResult::<f32>::new("hi".to_string());
    assert_eq!(plain.confidence, None);
    assert_eq!(TranscriptionResult::with_confidence("hi".to_string(), 0.5).confidence, Some(0.5));
}

#[test]
fn whisper_failures_are_told_apart() {
    assert_eq!(
        whisper_error(WhisperFailure::InitError, "InitError").to_string(),
        "Model not available: Initialization error: InitError"
    );
    assert_eq!(
        whisper_error(WhisperFailure::NoSamples, "NoSamples").to_string(),
        "Invalid audio: Invalid input: NoSamples"
    );
    assert_eq!(
        whisper_error(WhisperFailure::InvalidThreadCount, "InvalidThreadCount").to_string(),
        "Invalid audio: Invalid input: InvalidThreadCount"
    );
    assert_eq!(
        whisper_error(WhisperFailure::Other, "GenericError(-1)").to_string(),
        "Inference error: whisper-rs error: GenericError(-1)"
    );
}
