use speechcore::backend::BackendFeatures;
use speechcore::backend_manager::BackendManager;
use speechcore::config::{
    AudioProcessorConfig, CT2Options, CommonTranscriptionOptions, ConfigNumbers, SpeechConfig,
    VadConfigSerde, VadSensitivity, RealtimeModeConfig,
};
use speechcore::engine::{channel_closed_text, SpeechEngine};
use speechcore::feedback::{FeedbackEvent, FeedbackSink};
use speechcore::real_time_transcriber::{StreamEvent, TranscriptionMessage};
use speechcore::state::{BackendStatus, BackendStatusState};
use speechcore::stats_reporter::{on_demand_entry_at, periodic_entry_at, StatsReporter};
use speechcore::time::Instant;
use speechcore::transcription_processor::workers::{
    startup_step, worker_step, StartupStep, StreamStep, StreamingWorker, WorkerStep,
};
use speechcore::{
    migrate_legacy_ctranslate2_config, BackendConfig, BackendType, QuantizationLevel, VadConfig,
};
use std::sync::atomic::{AtomicUsize, Ordering};

const ALL: BackendFeatures = BackendFeatures {
    ctranslate2: true,
    whisper_cpp: true,
    moonshine: true,
    parakeet: true,
    nemotron: true,
};

const ONNX_ALONE: BackendFeatures =
    BackendFeatures { ctranslate2: false, whisper_cpp: false, ..ALL };

fn numbers() -> ConfigNumbers<f32> {
    ConfigNumbers {
        max_buffer_duration_sec: 30.0,
        chunk_duration_seconds: 29.0,
        chunk_overlap_seconds: 0.5,
        patience: 1.0,
        repetition_penalty: 1.25,
        temperature: 0.2,
        speech_prob_smoothing: 0.3,
    }
}

fn message(text: &str, session_id: Option<&str>, is_final: bool) -> TranscriptionMessage {
    TranscriptionMessage {
        text: text.to_string(),
        session_id: session_id.map(|s| s.to_string()),
        is_final,
    }
}

#[test]
fn the_engine_waits_for_its_session() {
    let mut config = SpeechConfig::with_numbers(ALL, numbers());
    config.general_config.transcription_mode = "realtime".to_string();
    let mut engine = SpeechEngine::new(config);
    assert_eq!(engine.config().general_config.transcription_mode, "manual");
    assert_eq!(engine.transcript_timeout(), 60_000);
    engine.set_transcript_timeout(5);
    assert_eq!(engine.transcript_timeout(), 5);
    engine.start_session("s1");
    let expected = engine.stop_session();
    assert_eq!(expected.as_deref(), Some("s1"));
    assert!(engine.accept_message(&expected, message("x", Some("s0"), true)).is_none());
    assert!(engine.accept_message(&expected, message("x", Some("s1"), false)).is_none());
    let transcript = engine.accept_message(&expected, message("done", Some("s1"), true)).unwrap();
    assert_eq!(transcript, transcript.clone());
    assert_eq!(transcript.text, "done");
    assert_eq!(transcript.model, "small.en");
    assert_eq!(transcript.backend, BackendType::CTranslate2);
    engine.start_session("s2");
    engine.cancel_session();
    let nothing = engine.stop_session();
    assert_eq!(nothing, None);
    assert!(engine.accept_message(&nothing, message("any", None, true)).is_some());
    assert_eq!(
        channel_closed_text("lagged"),
        "Transcript channel closed before final transcript: lagged"
    );
}

#[test]
fn default_configuration() {
    let config = SpeechConfig::with_numbers(ALL, numbers());
    assert_eq!(config.general_config.language, "en");
    assert_eq!(config.manual_mode_config.max_recording_duration_secs, 120);
    assert_eq!(config.vad_config.hangover_frames, 30);
    assert_eq!(config.whisper_cpp_options.max_tokens, 0);
    assert_eq!(config.debug_config.recording_dir, "recordings");
    assert_eq!(config.audio_processor_config, AudioProcessorConfig { buffer_size: 1024 });
    assert_eq!(config.compute_type, None);
}

#[test]
fn legacy_configuration_is_migrated_once() {
    let mut config = SpeechConfig::with_numbers(ALL, numbers());
    config.backend_config.gpu_enabled = false;
    config.backend_config.threads = 4;
    config.compute_type = Some("float32".to_string());
    config.device = Some("CUDA".to_string());
    config.whisper_cpp_options.no_context = false;
    config.migrate_legacy_config_on(ALL, 8, Some(0.7));
    assert_eq!(config.backend_config.quantization_level, QuantizationLevel::High);
    assert!(config.backend_config.gpu_enabled);
    assert_eq!((&config.compute_type, &config.device), (&None, &None));
    assert!(config.whisper_cpp_options.no_context);
    assert_eq!(config.whisper_cpp_options.temperature, 0.7);
    let before = config.backend_config;
    config.migrate_legacy_config(ALL, None);
    assert_eq!(config.backend_config, before);
    assert_eq!(config.whisper_cpp_options.temperature, 0.7);

    // A configuration that was changed is left alone.
    let mut config = SpeechConfig::with_numbers(ALL, numbers());
    config.compute_type = Some("float32".to_string());
    config.device = Some("CUDA".to_string());
    config.backend_config.threads = 3;
    config.migrate_legacy_config_on(ALL, 8, None);
    assert_eq!(config.compute_type.as_deref(), Some("float32"));
    assert_eq!(config.backend_config.quantization_level, QuantizationLevel::Medium);

    // Without CTranslate2 the fields only go away.
    config.backend_config.gpu_enabled = false;
    config.backend_config.threads = 2;
    config.migrate_legacy_config_on(ONNX_ALONE, 2, None);
    assert_eq!(config.compute_type, None);
    assert!(!config.backend_config.gpu_enabled);
    assert_eq!(migrate_legacy_ctranslate2_config("INT8", "CPU", Some(3)).threads, 3);
}

#[test]
fn legacy_fields_replace_the_default() {
    for gpu_enabled in [true, false] {
        let mut config = SpeechConfig::with_numbers(ALL, numbers());
        config.backend_config.gpu_enabled = gpu_enabled;
        config.compute_type = Some("INT8".to_string());
        config.device = Some("CPU".to_string());
        config.migrate_legacy_config(ALL, None);
        assert_eq!((&config.compute_type, &config.device), (&None, &None));
        assert_eq!(config.backend_config.backend, BackendType::CTranslate2);
        assert!(!config.backend_config.gpu_enabled);
        assert_eq!(config.backend_config.quantization_level, QuantizationLevel::Medium);
        assert_eq!(config.backend_config.threads, num_cpus::get().min(4));
    }
    let upper = migrate_legacy_ctranslate2_config("FLOAT16", "CUDA", Some(2));
    assert_eq!(migrate_legacy_ctranslate2_config("Float16", "cuda", Some(2)), upper);
    assert_eq!(upper.quantization_level, QuantizationLevel::High);
    assert!(upper.gpu_enabled);
}

#[test]
fn a_chosen_backend_counts() {
    let chosen = BackendConfig {
        backend: BackendType::Parakeet,
        threads: 4,
        gpu_enabled: true,
        quantization_level: QuantizationLevel::High,
    };
    for backend_config in [
        chosen,
        BackendConfig { quantization_level: QuantizationLevel::Medium, ..chosen },
        BackendConfig { backend: BackendType::CTranslate2, ..chosen },
    ] {
        let mut config = SpeechConfig::with_numbers(ALL, numbers());
        config.backend_config = backend_config;
        config.compute_type = Some("INT8".to_string());
        config.device = Some("CPU".to_string());
        config.migrate_legacy_config_on(ALL, 8, None);
        assert_eq!(config.backend_config, backend_config);
        assert_eq!(config.compute_type.as_deref(), Some("INT8"));
        assert_eq!(config.device.as_deref(), Some("CPU"));
    }
}

#[test]
fn the_default_follows_the_backends_built() {
    let config = SpeechConfig::with_numbers(ONNX_ALONE, numbers());
    assert_eq!(config.backend_config.backend, BackendType::Moonshine);
    assert_eq!(BackendConfig::default_for(ONNX_ALONE), config.backend_config);
    assert_eq!(BackendConfig::default_for(ALL), BackendConfig::default());
    let whisper =
        BackendFeatures { ctranslate2: false, moonshine: false, parakeet: false, ..ALL };
    let config = SpeechConfig::with_numbers(whisper, numbers());
    assert_eq!(config.backend_config.backend, BackendType::WhisperCpp);
    assert_eq!(config.backend_config.threads, num_cpus::get().min(4));
    assert!(config.backend_config.gpu_enabled);
}

#[test]
fn detector_configuration() {
    let vad = VadConfigSerde::with_smoothing(0.3f32);
    let realtime = RealtimeModeConfig::with_duration(30.0f32);
    let config = VadConfig::from_config(&vad, &realtime, 16000, 0.1, 0.08, 160, 480000);
    assert_eq!(config.frame_size, 512);
    assert_eq!((config.hangbefore_frames, config.hangover_frames), (5, 30));
    assert_eq!(config.max_segment_count, 20);
    let thresholds: Vec<(u32, u32)> =
        [VadSensitivity::Low, VadSensitivity::Medium, VadSensitivity::High]
            .iter()
            .map(|s| (s.threshold(), s.speech_end_threshold()))
            .collect();
    assert_eq!(thresholds, vec![(15, 12), (10, 8), (5, 3)]);
    assert_eq!(VadSensitivity::default(), VadSensitivity::Medium);
    let options = CT2Options { repetition_penalty: 1.25f32 }
        .to_whisper_options(&CommonTranscriptionOptions::with_patience(1.5));
    assert_eq!((options.beam_size, options.patience, options.repetition_penalty), (5, 1.5, 1.25));
}

#[test]
fn reloads() {
    let status = BackendStatus::<f32>::new("CTranslate2".to_string(), "base".to_string());
    let mut manager = BackendManager::new(status, true);
    let config = BackendConfig::with_cpus(BackendType::Parakeet, 4);
    manager.begin_reload(&config, "v3");
    assert!(!manager.is_ready());
    assert_eq!(manager.status().backend_name, "Parakeet");
    assert!(
        matches!(&manager.status().state, BackendStatusState::Loading(s) if s == "Resolving model...")
    );
    manager.progress(0.5);
    assert_eq!(manager.status().download_progress, Some(0.5));
    manager.resolution_failed("offline", Instant { nanos: 9 });
    assert!(manager.is_ready());
    assert_eq!(manager.status().backend_name, "CTranslate2");
    assert_eq!(manager.status().model_name, "base");
    assert_eq!(manager.status().download_progress, None);
    assert_eq!(manager.status().error_time, Some(Instant { nanos: 9 }));
    assert!(matches!(
        &manager.status().state,
        BackendStatusState::Error(s) if s == "Model resolution failed: offline"
    ));
    manager.begin_reload(&config, "v3");
    manager.model_resolved();
    assert!(
        matches!(&manager.status().state, BackendStatusState::Loading(s) if s == "Loading backend...")
    );
    manager.load_failed("bad file", Instant { nanos: 10 });
    assert_eq!(manager.status().model_name, "base");
    assert!(matches!(
        &manager.status().state,
        BackendStatusState::Error(s) if s == "Reload failed: bad file"
    ));
    manager.begin_reload(&config, "v3");
    manager.model_resolved();
    manager.backend_loaded();
    assert!(manager.is_ready());
    assert_eq!(manager.status().model_name, "v3");
    assert_eq!(manager.status().state, BackendStatusState::Ready);
}

#[test]
fn the_transcription_worker() {
    let start = Instant { nanos: 0 };
    let late = Instant { nanos: 10_000_000_000 };
    assert_eq!(startup_step(true, false, start, late), StartupStep::Begin);
    assert_eq!(startup_step(false, false, start, late), StartupStep::Quit);
    assert_eq!(startup_step(false, true, start, late), StartupStep::WarnAndWait);
    assert_eq!(startup_step(false, true, late, late), StartupStep::Wait);
    assert_eq!(worker_step(None, true, true), WorkerStep::Receive);
    assert_eq!(worker_step(None, true, false), WorkerStep::DrainAndStop);
    assert_eq!(worker_step(Some(true), false, true), WorkerStep::AwaitBackend);
    assert_eq!(worker_step(Some(true), false, false), WorkerStep::Transcribe);
    assert_eq!(worker_step(Some(true), true, true), WorkerStep::Transcribe);
    assert_eq!(worker_step(Some(false), true, true), WorkerStep::Stop);
}

#[test]
fn the_streaming_worker() {
    let mut worker = StreamingWorker::new();
    let start = || StreamEvent::Start::<u8> { session_id: Some("s".to_string()) };
    assert!(matches!(worker.on_event(start(), false, Some(true), true), StreamStep::Stop));
    assert!(matches!(worker.on_event(start(), true, None, true), StreamStep::Skip));
    assert!(matches!(worker.on_event(start(), true, Some(true), false), StreamStep::Skip));
    assert!(matches!(worker.on_event(start(), true, Some(false), true), StreamStep::Skip));
    let chunk = || StreamEvent::Chunk(vec![1u8]);
    assert!(matches!(worker.on_event(chunk(), true, Some(false), true), StreamStep::Skip));
    assert!(matches!(worker.on_event(start(), true, Some(true), true), StreamStep::Reset));
    assert!(
        matches!(worker.on_event(chunk(), true, Some(true), true), StreamStep::Push(c) if c == vec![1])
    );
    let interim = worker.interim_message(Some("so far".to_string())).unwrap();
    assert!(!interim.is_final);
    assert_eq!(interim.session_id.as_deref(), Some("s"));
    assert!(worker.interim_message(Some(String::new())).is_none());
    assert!(worker.interim_message(None).is_none());
    let end = || StreamEvent::End::<u8>;
    assert!(matches!(worker.on_event(end(), true, Some(true), true), StreamStep::Finish));
    assert!(matches!(worker.on_event(end(), true, Some(true), true), StreamStep::Skip));
}

#[test]
fn a_backend_that_does_not_stream_is_left_alone() {
    let mut worker = StreamingWorker::new();
    let events = vec![
        StreamEvent::Start { session_id: None },
        StreamEvent::Chunk(vec![1u8]),
        StreamEvent::Chunk(vec![2]),
        StreamEvent::End,
        StreamEvent::Chunk(vec![3]),
    ];
    for event in events {
        assert!(matches!(worker.on_event(event, true, Some(false), true), StreamStep::Skip));
    }
}

#[test]
fn statistics_entries() {
    assert_eq!(periodic_entry_at("T", "r"), "\n--- T ---\nr\n");
    assert_eq!(on_demand_entry_at("T", "r"), "\n--- T (On-Demand Report) ---\nr\n");
    let reporter = StatsReporter::new(true);
    assert!(reporter.periodic_report(0, "r").is_none());
    assert!(StatsReporter::new(false).print_stats(3, "r").is_none());
    let entry = reporter.periodic_report(1, "r").unwrap();
    assert!(entry.starts_with("\n--- 2") && entry.ends_with(" ---\nr\n"));
    assert_eq!(entry.len(), "\n--- 2026-01-02 03:04:05 ---\nr\n".len());
    assert!(reporter.print_stats(1, "r").unwrap().contains("(On-Demand Report)"));
}

struct Counter(AtomicUsize);

impl FeedbackSink for Counter {
    fn play(&self, event: FeedbackEvent) {
        if event == FeedbackEvent::SessionStart {
            self.0.fetch_add(1, Ordering::Relaxed);
        }
    }
}

#[test]
fn feedback_is_given() {
    let sink = Counter(AtomicUsize::new(0));
    let hook: &dyn FeedbackSink = &sink;
    hook.play(FeedbackEvent::SessionStart);
    hook.play(FeedbackEvent::RecordStop);
    assert_eq!(sink.0.load(Ordering::Relaxed), 1);
}
