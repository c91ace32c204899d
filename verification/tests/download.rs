use speechcore::backend::{BackendFeatures, BackendType, QuantizationLevel};
use speechcore::download::{
    check_silero_download, conversion_command, conversion_result, conversion_script,
    converter_args, default_model_name, default_whisper_model, ensure_backend_available, file_url,
    get_whisper_cpp_model_path, init_model, is_model_complete, is_silero_model_valid, model_cache_dir,
    model_files, moonshine_model_dir, moonshine_model_id, normalize_model_name, parakeet_dir_name,
    parakeet_hf_repo, parakeet_model_dir, plan_downloads, quote_argument, resolve_model_path,
    silero_model_path, silero_vad_url, CacheEnvironment, ModelType, ProvisionPlan,
};

const ALL: BackendFeatures = BackendFeatures {
    ctranslate2: true,
    whisper_cpp: true,
    moonshine: true,
    parakeet: true,
    nemotron: true,
};

fn env(model_dir: Option<&str>, cache_home: Option<&str>, home: Option<&str>) -> CacheEnvironment {
    CacheEnvironment {
        model_dir: model_dir.map(|s| s.to_string()),
        cache_home: cache_home.map(|s| s.to_string()),
        home: home.map(|s| s.to_string()),
    }
}

#[test]
fn models_are_kept_where_the_environment_says() {
    assert_eq!(model_cache_dir(&env(Some("/x"), Some("/c"), Some("/h"))).unwrap(), "/x");
    assert_eq!(
        model_cache_dir(&env(None, Some("/c"), Some("/h"))).unwrap(),
        "/c/speechcore/models"
    );
    assert_eq!(
        model_cache_dir(&env(None, None, Some("/h"))).unwrap(),
        "/h/.cache/speechcore/models"
    );
    assert_eq!(model_cache_dir(&env(None, None, None)).unwrap_err(), "Failed to get HOME directory");
}

#[test]
fn backends_that_were_not_built() {
    let none = BackendFeatures {
        ctranslate2: false,
        whisper_cpp: false,
        moonshine: false,
        parakeet: false,
        nemotron: false,
    };
    assert!(ensure_backend_available(BackendType::Parakeet, ALL).is_ok());
    assert_eq!(
        ensure_backend_available(BackendType::WhisperCpp, none).unwrap_err(),
        "Whisper.cpp backend is disabled; enable speechcore feature `backend-whisper-cpp`"
    );
    assert!(
        resolve_model_path("x", BackendType::Nemotron, QuantizationLevel::Low, "/m", none).is_err()
    );
}

#[test]
fn names_by_backend() {
    let ct2 = |name| normalize_model_name(name, BackendType::CTranslate2);
    assert_eq!(ct2("tiny"), "openai/whisper-tiny.en");
    assert_eq!(ct2("base.en"), "openai/whisper-base.en");
    assert_eq!(ct2("small"), "distil-whisper/distil-small.en");
    assert_eq!(ct2("medium.en"), "distil-whisper/distil-medium.en");
    assert_eq!(ct2("large-v2"), "distil-whisper/distil-large-v3");
    assert_eq!(ct2("custom"), "custom");
    assert_eq!(ct2("org/tiny"), "org/tiny");
    assert_eq!(normalize_model_name("distil-small.en", BackendType::WhisperCpp), "small.en");
    assert_eq!(normalize_model_name("distil-x", BackendType::Moonshine), "distil-x");
    assert_eq!(moonshine_model_id("UsefulSensors/moonshine-tiny"), "tiny");
    assert_eq!(moonshine_model_id("base"), "base");
    assert_eq!(moonshine_model_dir("/m", "tiny"), "/m/moonshine-tiny-onnx");
    assert_eq!(parakeet_dir_name("parakeet-tdt-0.6b-v2"), "parakeet-tdt-v2-int8");
    assert_eq!(parakeet_model_dir("/m", "other"), "/m/parakeet-tdt-v3-int8");
    assert_eq!(
        parakeet_hf_repo("parakeet-tdt-0.6b-v3"),
        "csukuangfj/sherpa-onnx-nemo-parakeet-tdt-0.6b-v3-int8"
    );
    assert_eq!(default_model_name(), "base.en");
    assert_eq!(default_whisper_model(), "openai/whisper-base.en");
    assert_ne!(ModelType::Whisper, ModelType::Silero);
}

#[test]
fn missing_files_are_downloaded() {
    let files = model_files(BackendType::Moonshine);
    assert!(is_model_complete(BackendType::Moonshine, &files));
    assert!(plan_downloads(BackendType::Moonshine, "/d", "tiny", &files).is_empty());
    let present = vec!["tokenizer.json".to_string(), "encoder_model.onnx".to_string()];
    assert!(!is_model_complete(BackendType::Moonshine, &present));
    let plan = plan_downloads(BackendType::Moonshine, "/d", "tiny", &present);
    assert_eq!(plan.len(), 2);
    assert_eq!(
        plan[0].url,
        "https://huggingface.co/UsefulSensors/moonshine/resolve/main/onnx/merged/tiny/float/decoder_model_merged.onnx"
    );
    assert_eq!(plan[0].path, "/d/decoder_model_merged.onnx");
    assert_eq!(
        plan[1].url,
        "https://huggingface.co/UsefulSensors/moonshine-tiny/resolve/main/preprocessor_config.json"
    );
    assert_eq!(plan_downloads(BackendType::Nemotron, "/d", "", &vec![]).len(), 7);
    assert_eq!(
        file_url(BackendType::Parakeet, "parakeet-tdt-0.6b-v2", "tokens.txt"),
        "https://huggingface.co/csukuangfj/sherpa-onnx-nemo-parakeet-tdt-0.6b-v2-int8/resolve/main/tokens.txt"
    );
    assert_eq!(model_files(BackendType::CTranslate2)[0], "model.bin");
    assert!(is_model_complete(BackendType::WhisperCpp, &vec![]));
}

#[test]
fn plans_by_backend() {
    let plan = |name, backend| {
        resolve_model_path(name, backend, QuantizationLevel::Low, "/m", ALL).unwrap()
    };
    match plan("small", BackendType::CTranslate2) {
        ProvisionPlan::Convert { model, dir } => {
            assert_eq!(model, "distil-whisper/distil-small.en");
            assert_eq!(dir, "/m/distil-small.en-ct2");
        }
        other => panic!("{:?}", other),
    }
    // Under its full name a model is taken as it is.
    match init_model(Some("small"), "/m") {
        ProvisionPlan::Convert { model, dir } => {
            assert_eq!((model.as_str(), dir.as_str()), ("small", "/m/small-ct2"));
        }
        other => panic!("{:?}", other),
    }
    match init_model(None, "/m") {
        ProvisionPlan::Convert { model, dir } => {
            assert_eq!(model, "openai/whisper-base.en");
            assert_eq!(dir, "/m/whisper-base.en-ct2");
        }
        other => panic!("{:?}", other),
    }
    match plan("base.en", BackendType::WhisperCpp) {
        ProvisionPlan::SingleFile { download } => {
            assert_eq!(download.path, "/m/ggml-base.en-q5_1.bin");
            assert_eq!(
                download.url,
                "https://huggingface.co/ggerganov/whisper.cpp/resolve/main/ggml-base.en-q5_1.bin"
            );
        }
        other => panic!("{:?}", other),
    }
    match plan("org/moonshine-base", BackendType::Moonshine) {
        ProvisionPlan::Directory { model, dir } => {
            assert_eq!((model.as_str(), dir.as_str()), ("base", "/m/moonshine-base-onnx"));
        }
        other => panic!("{:?}", other),
    }
    match plan("any", BackendType::Nemotron) {
        ProvisionPlan::Directory { dir, .. } => {
            assert_eq!(dir, "/m/nemotron-3.5-asr-streaming-0.6b-int4");
        }
        other => panic!("{:?}", other),
    }
    assert_eq!(
        get_whisper_cpp_model_path("/m", "tiny", QuantizationLevel::High),
        "/m/ggml-tiny.bin"
    );
}

#[test]
fn the_detector_model() {
    assert!(!is_silero_model_valid(None));
    assert!(!is_silero_model_valid(Some(10_000)));
    assert!(is_silero_model_valid(Some(10_001)));
    assert_eq!(
        check_silero_download(Some(3)).unwrap_err(),
        "Downloaded Silero model is invalid or corrupted"
    );
    assert!(check_silero_download(Some(20_000)).is_ok());
    assert_eq!(silero_model_path("/m"), "/m/silero_vad.onnx");
    assert!(silero_vad_url().ends_with("/v5.1.2/src/silero_vad/data/silero_vad.onnx"));
}

#[test]
fn conversions() {
    assert_eq!(quote_argument("a'b"), "'a'\\''b'");
    assert_eq!(quote_argument("$(x) `y`"), "'$(x) `y`'");
    assert_eq!(quote_argument(""), "''");
    let args = converter_args("m", "/o");
    assert_eq!(args.len(), 8);
    assert_eq!(
        conversion_script("it's", "/o"),
        "ct2-transformers-converter '--force' '--model' 'it'\\''s' '--output_dir' '/o' '--copy_files' 'preprocessor_config.json' 'tokenizer.json'"
    );
    let direct = conversion_command(false, &None, "m", "/o");
    assert_eq!(direct.program, "ct2-transformers-converter");
    assert_eq!(direct.args, args);
    let nix = conversion_command(true, &Some("shell.nix".to_string()), "m", "/o");
    assert_eq!(nix.program, "nix-shell");
    assert_eq!(nix.args[..2], ["shell.nix".to_string(), "--command".to_string()]);
    assert_eq!(conversion_command(true, &None, "m", "/o").args.len(), 2);
    assert_eq!(
        conversion_result(false, false).unwrap_err(),
        "Model conversion failed. Please follow the manual instructions."
    );
    assert_eq!(
        conversion_result(true, false).unwrap_err(),
        "Model conversion failed or is incomplete"
    );
    assert!(conversion_result(true, true).is_ok());
}
