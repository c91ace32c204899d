use speechcore::audio_processor::{
    recording_path_at, recording_path_now, send_failure_text, show_manual_finished, AudioProcessor,
};
use speechcore::real_time_transcriber::{StreamEvent, TranscriptionMode};
use speechcore::silero_audio_processor::AudioSegment;
use speechcore::state::{AudioVisualizationData, ProcessingState};
use speechcore::time::Instant;

const NOW: Instant = Instant { nanos: 5 };

fn display() -> AudioVisualizationData<u32> {
    AudioVisualizationData::with_capacity(8, NOW)
}

fn segment(samples: Vec<u32>, start: u64) -> AudioSegment<u32> {
    let end = start + samples.len() as u64;
    AudioSegment {
        samples,
        start_time: start,
        end_time: end,
        sample_rate: 16000,
        session_id: None,
        is_manual: false,
    }
}

#[test]
fn a_manual_session_keeps_every_sample() {
    let mut processor = AudioProcessor::new(TranscriptionMode::Manual, 4, 1);
    assert_eq!(processor.get_session_id(), None);
    let mut view = display();
    processor.process_buffer(TranscriptionMode::Manual, &[9, 9], None, false, &mut view);
    processor.start_new_manual_session("s1".to_string());
    let outcome =
        processor.process_buffer(TranscriptionMode::Manual, &[1, 2, 3, 4, 5], None, false, &mut view);
    assert!(!outcome.overflow && outcome.events.is_empty() && outcome.segments.is_empty());
    assert_eq!(view.samples, vec![1, 2, 3, 4]);
    assert!(view.is_speaking);
    processor.process_buffer(TranscriptionMode::Manual, &[6], None, false, &mut view);
    assert_eq!(processor.get_samples_received_count(), 3);
    let taken =
        processor.process_accumulated_manual_audio(16000, processor.get_session_id()).unwrap();
    assert_eq!(taken.samples, vec![1, 2, 3, 4, 5, 6]);
    assert_eq!((taken.start_time, taken.end_time), (0, 6));
    assert_eq!(taken.session_id.as_deref(), Some("s1"));
    assert!(taken.is_manual);
    assert!(processor.trigger_manual_transcription(16000, None).is_none());
    show_manual_finished(&mut view);
    assert!(view.samples.is_empty() && !view.is_speaking);
}

#[test]
fn a_full_recording_is_cut() {
    let mut processor = AudioProcessor::new(TranscriptionMode::Manual, 4, 1);
    assert!(!processor.process_manual_audio(&vec![1u32; 15999]));
    assert!(processor.process_manual_audio(&[7, 8, 9]));
    assert!(processor.process_manual_audio(&[10]));
    let taken = processor.trigger_manual_transcription(16000, None).unwrap();
    assert_eq!(taken.samples.len(), 16000);
    assert_eq!(taken.samples[15999], 7);
    processor.process_manual_audio(&[1]);
    processor.clear_manual_buffer();
    assert!(processor.trigger_manual_transcription(16000, None).is_none());
}

#[test]
fn the_first_segment_gets_the_context() {
    let mut processor = AudioProcessor::new(TranscriptionMode::RealTime, 4, 1);
    assert_eq!(processor.get_session_id().as_deref(), Some("realtime"));
    let mut view = display();
    view.reset_requested = true;
    view.transcript = "old".to_string();
    let segments = vec![segment(vec![5, 6], 1), segment(vec![7], 9)];
    let outcome = processor.process_buffer(
        TranscriptionMode::RealTime,
        &[1, 2, 3],
        Some(segments),
        true,
        &mut view,
    );
    assert!(outcome.reset_history);
    assert_eq!(view.transcript, "");
    assert!(!view.reset_requested && view.is_speaking);
    assert_eq!(outcome.segments[0].samples, vec![1, 2, 3, 5, 6]);
    assert_eq!(outcome.segments[0].start_time, 0);
    assert_eq!(outcome.segments[0].end_time, 3);
    assert_eq!(outcome.segments[1].samples, vec![7]);
    assert_eq!(outcome.segments[1].start_time, 9);
    assert_eq!(outcome.segments[1].session_id.as_deref(), Some("realtime"));
    // Speech was on before: no context.
    processor.set_session_id(None);
    let outcome = processor.process_buffer(
        TranscriptionMode::RealTime,
        &[4],
        Some(vec![segment(vec![8], 9)]),
        true,
        &mut view,
    );
    assert_eq!(outcome.segments[0].samples, vec![8]);
    assert_eq!(outcome.segments[0].session_id, None);
}

#[test]
fn events_follow_the_utterance() {
    let mut processor = AudioProcessor::new(TranscriptionMode::RealTime, 2, 1);
    let mut view = display();
    let mut run = |p: &mut AudioProcessor<u32>, samples: &[u32], detected: Option<bool>| {
        let segments = detected.map(|_| vec![]);
        p.process_buffer(
            TranscriptionMode::RealTime,
            samples,
            segments,
            detected.unwrap_or(true),
            &mut view,
        )
        .events
    };
    assert!(run(&mut processor, &[1], Some(false)).is_empty());
    let events = run(&mut processor, &[2], Some(true));
    assert_eq!(events.len(), 2);
    assert!(matches!(&events[0], StreamEvent::Start { session_id: Some(s) } if s == "realtime"));
    assert!(matches!(&events[1], StreamEvent::Chunk(c) if *c == vec![1, 2]));
    let events = run(&mut processor, &[3], Some(true));
    assert!(matches!(&events[0], StreamEvent::Chunk(c) if *c == vec![3]));
    // Detection fails: the utterance is over.
    let events = run(&mut processor, &[4], None);
    assert!(matches!(events[0], StreamEvent::End));
    run(&mut processor, &[5], Some(true));
    assert!(matches!(processor.pause()[0], StreamEvent::End));
    assert!(processor.pause().is_empty());
    // The context was forgotten.
    let events = run(&mut processor, &[6], Some(true));
    assert!(matches!(&events[1], StreamEvent::Chunk(c) if *c == vec![6]));
}

#[test]
fn the_context_is_the_latest() {
    let mut processor = AudioProcessor::new(TranscriptionMode::RealTime, 4, 1);
    let long: Vec<u32> = (0..3000).collect();
    processor.receive(&long);
    let mut view = display();
    let outcome = processor.process_buffer(
        TranscriptionMode::RealTime,
        &[1],
        Some(vec![segment(vec![], 5000)]),
        true,
        &mut view,
    );
    // 150 ms at 16 kHz.
    assert_eq!(outcome.segments[0].samples.len(), 2400);
    assert_eq!(outcome.segments[0].samples[0], 601);
    assert_eq!(outcome.segments[0].start_time, 2600);
}

#[test]
fn display_state() {
    let mut view = display();
    assert_eq!(view.processing_state, ProcessingState::Idle);
    view.set_processing_state(ProcessingState::Loading, Instant { nanos: 10 });
    view.set_processing_state(ProcessingState::Loading, Instant { nanos: 20 });
    assert!(view.is_processing());
    assert_eq!(view.processing_state_duration(Instant { nanos: 25 }), 15);
    view.update_transcript("hi");
    view.update_samples(&[1, 2]);
    assert_eq!((view.transcript.as_str(), view.samples.len()), ("hi", 2));
    view.clear_samples();
    assert!(view.samples.is_empty());
    view.set_processing_state(ProcessingState::Completed, NOW);
    assert!(!view.is_processing());
}

#[test]
fn recordings_are_named_by_time() {
    assert_eq!(recording_path_at("recordings", "20260102_030405"), "recordings/recording_20260102_030405.wav");
    let path = recording_path_now("out/");
    assert!(path.starts_with("out/recording_2"));
    assert_eq!(path.len(), "out/recording_20260102_030405.wav".len());
    assert!(path.ends_with(".wav"));
    assert_eq!(send_failure_text("closed"), "Failed to send manual audio segment: closed");
}

#[test]
fn events_are_whole_utterances() {
    let mut processor = AudioProcessor::new(TranscriptionMode::RealTime, 2, 1);
    let mut view = display();
    let realtime = Some(TranscriptionMode::RealTime);
    let manual = Some(TranscriptionMode::Manual);
    let mut heard = String::new();
    // A mode with whether somebody speaks, or a pause.
    for (mode, speaking) in [
        (realtime, true),
        (realtime, true),
        (manual, true),
        (manual, false),
        (realtime, true),
        (None, false),
        (None, false),
        (realtime, false),
        (realtime, true),
        (realtime, false),
        (realtime, true),
    ] {
        let events = match mode {
            Some(mode) => {
                processor.process_buffer(mode, &[1], Some(vec![]), speaking, &mut view).events
            }
            None => processor.pause(),
        };
        for event in &events {
            heard.push(match event {
                StreamEvent::Start { .. } => 'S',
                StreamEvent::Chunk(_) => 'C',
                StreamEvent::End => 'E',
            });
        }
    }
    assert_eq!(heard, "SCCESCESCESC");
}
