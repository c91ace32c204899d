use speechcore::transcription_processor::processor::{
    extract_prompt_context, process_large_manual_segment, ChunkedTranscription, Inference,
    ManualPlan, TranscriptionProcessor,
};
use speechcore::backend::traits::TranscriptionError;
use speechcore::config::{PostProcessConfig, WhisperCppOptions};
use speechcore::silero_audio_processor::AudioSegment;
use speechcore::state::ProcessingState;

#[test]
fn build_vad_guided_chunks_prefers_latest_pause_within_limit() {
    let sample_rate = 10;
    let ranges =
        TranscriptionProcessor::build_vad_guided_chunks(100, 40, &[25, 35, 70], sample_rate);

    assert_eq!(ranges, vec![(0, 35), (35, 70), (70, 100)]);
}

#[test]
fn build_vad_guided_chunks_falls_back_to_max_size_without_pause() {
    let sample_rate = 10;
    let ranges = TranscriptionProcessor::build_vad_guided_chunks(105, 40, &[], sample_rate);

    assert_eq!(ranges, vec![(0, 40), (40, 80), (80, 105)]);
}

#[test]
fn build_vad_guided_chunks_merges_tiny_trailing_chunk() {
    let sample_rate = 10;
    let ranges = TranscriptionProcessor::build_vad_guided_chunks(85, 40, &[], sample_rate);

    assert_eq!(ranges, vec![(0, 40), (40, 85)]);
}

#[test]
fn chunk_edges() {
    let build = TranscriptionProcessor::build_vad_guided_chunks;
    assert_eq!(build(0, 40, &[], 10), vec![]);
    assert_eq!(build(40, 40, &[20], 10), vec![(0, 40)]);
    // A pause within the first two seconds is no place to split.
    assert_eq!(build(60, 40, &[20], 10), vec![(0, 40), (40, 60)]);
    assert_eq!(build(60, 40, &[21], 10), vec![(0, 21), (21, 60)]);
    // Too long to be merged.
    assert_eq!(build(910, 450, &[], 10), vec![(0, 450), (450, 900), (900, 910)]);
}

fn segment(len: usize, sample_rate: usize) -> AudioSegment<u32> {
    AudioSegment {
        samples: (0..len as u32).collect(),
        start_time: 100,
        end_time: 100 + len as u64,
        sample_rate,
        session_id: Some("s".to_string()),
        is_manual: true,
    }
}

#[test]
fn chunks_are_handed_out_with_prompts() {
    let mut work = ChunkedTranscription::new(segment(85, 10), 40, &[]);
    assert_eq!(work.chunk_count(), 2);
    let (first, prompt) = work.next_chunk().unwrap();
    assert_eq!(first.samples.len(), 40);
    assert_eq!((first.start_time, first.end_time), (100, 140));
    assert_eq!(first.session_id.as_deref(), Some("s"));
    assert_eq!(prompt, None);
    work.chunk_done("  Hello there.  ");
    let (second, prompt) = work.next_chunk().unwrap();
    assert_eq!(second.samples, (40..85).collect::<Vec<u32>>());
    assert_eq!((second.start_time, second.end_time), (140, 185));
    assert_eq!(prompt.as_deref(), Some("Hello there."));
    work.chunk_done("   ");
    assert!(work.next_chunk().is_none());
    assert_eq!(work.transcript(), "Hello there.");
}

#[test]
fn chunk_texts_are_joined() {
    let texts = vec![" one ".to_string(), "".to_string(), "two".to_string()];
    assert_eq!(process_large_manual_segment(segment(105, 10), 40, &[], &texts), "one two");
}

#[test]
fn prompts_are_the_last_words() {
    assert_eq!(extract_prompt_context("a  b c", 3), "a  b c");
    assert_eq!(extract_prompt_context("a  b c", 2), "b c");
    assert_eq!(extract_prompt_context("a b", 0), "");
}

#[test]
fn transcripts_and_failures() {
    let config = PostProcessConfig::default();
    let run = |inference| TranscriptionProcessor::transcribe_segment(inference, &config);
    assert_eq!(
        run(Inference::Unavailable),
        ("[backend not available]".to_string(), ProcessingState::Idle)
    );
    assert_eq!(
        run(Inference::NotBuilt),
        ("[no transcription backend feature enabled]".to_string(), ProcessingState::Error)
    );
    assert_eq!(
        run(Inference::Answered(Ok(" - um hello ".to_string()))),
        ("hello".to_string(), ProcessingState::Idle)
    );
    let error = TranscriptionError::InvalidAudio("mono".to_string());
    assert_eq!(
        run(Inference::Answered(Err(error))),
        ("[transcription error: Invalid audio: mono]".to_string(), ProcessingState::Error)
    );
}

#[test]
fn final_messages() {
    assert!(TranscriptionProcessor::final_message(String::new(), None).is_none());
    let message =
        TranscriptionProcessor::final_message("x".to_string(), Some("s".to_string())).unwrap();
    assert!(message.is_final);
    assert_eq!(message.text, "x");
    assert_eq!(message.session_id.as_deref(), Some("s"));
}

#[test]
fn plans_for_manual_recordings() {
    let plan = |len, max, reaches, off| {
        TranscriptionProcessor::plan_manual_segment(&segment(len, 10), max, reaches, off)
    };
    assert_eq!(plan(600, Some(60), false, false), ManualPlan::Chunked);
    assert_eq!(plan(599, Some(60), true, false), ManualPlan::Whole);
    assert_eq!(plan(600, Some(60), true, true), ManualPlan::Whole);
    assert_eq!(plan(1, None, true, false), ManualPlan::Chunked);
    assert_eq!(plan(1, None, false, false), ManualPlan::Whole);
}

#[test]
fn prompts_in_options() {
    let mut options = WhisperCppOptions::with_temperature(1u8);
    let with = TranscriptionProcessor::with_prompt(&options, Some("before"));
    assert_eq!(with.initial_prompt.as_deref(), Some("before"));
    assert!(with.no_context);
    options.initial_prompt = Some("standing".to_string());
    let empty = TranscriptionProcessor::with_prompt(&options, Some(""));
    assert_eq!(empty.initial_prompt.as_deref(), Some("standing"));
    assert_eq!(
        TranscriptionProcessor::with_prompt(&options, None).initial_prompt.as_deref(),
        Some("standing")
    );
    assert_eq!(TranscriptionProcessor::new("en".to_string()).language, "en");
}
