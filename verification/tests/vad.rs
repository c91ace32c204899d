use speechcore::silero_audio_processor::{
    FrameVerdict, SampleRate, SileroVad, VadConfig, VadState,
};
use speechcore::transcription_processor::pauses::{
    find_pause_points, pause_config, pause_frame, pause_frame_count,
};

const SPEECH: FrameVerdict = FrameVerdict {
    raw_starts: true,
    raw_continues: true,
    smoothed_starts: true,
    smoothed_continues: true,
};

const SILENCE: FrameVerdict = FrameVerdict {
    raw_starts: false,
    raw_continues: false,
    smoothed_starts: false,
    smoothed_continues: false,
};

fn config() -> VadConfig<()> {
    VadConfig {
        threshold: (),
        frame_size: 4,
        sample_rate: 10,
        hangbefore_frames: 2,
        hangover_frames: 2,
        hop_samples: 2,
        max_buffer_duration: 100,
        max_segment_count: 5,
        silence_tolerance_frames: 1,
        speech_end_threshold: (),
        speech_prob_smoothing: (),
    }
}

fn samples(from: u32, to: u32) -> Vec<u32> {
    (from..to).collect()
}

#[test]
fn a_segment_comes_out_of_a_batch() {
    let mut vad = SileroVad::new(config());
    let mut verdicts = vec![SPEECH, SPEECH];
    verdicts.extend(vec![SILENCE; 8]);
    let segments = vad.process_audio(&samples(1, 21), 0, &verdicts).unwrap();
    assert_eq!(segments.len(), 1);
    assert_eq!(segments[0].samples, samples(1, 9));
    assert_eq!((segments[0].start_time, segments[0].end_time), (0, 8));
    assert_eq!(segments[0].sample_rate, 10);
    assert_eq!(segments[0].session_id, None);
    assert!(!segments[0].is_manual);
    assert_eq!(vad.get_state(), VadState::Silence);
    assert!(vad.get_speeches().is_empty());
}

#[test]
fn an_empty_batch_changes_nothing() {
    let mut vad = SileroVad::new(config());
    assert!(vad.process_audio(&[], 0u32, &[]).unwrap().is_empty());
}

#[test]
fn a_failing_model_ends_the_batch() {
    let mut vad = SileroVad::new(config());
    assert!(vad.process_audio(&samples(0, 20), 0, &[SPEECH, SPEECH]).is_none());
    assert_eq!(vad.get_state(), VadState::Speech);
    assert!(vad.is_speaking());
    assert_eq!(vad.get_current_speech_duration(), Some(6));
    let current = vad.get_current_speech().unwrap();
    assert_eq!(current.samples, samples(0, 6));
    vad.reset();
    assert_eq!(vad.get_state(), VadState::Silence);
    assert!(vad.get_current_speech().is_none());
    assert_eq!(vad.get_current_speech_duration(), None);
}

#[test]
fn frames_are_handed_out_one_by_one() {
    let mut vad = SileroVad::new(VadConfig { frame_size: 16, hop_samples: 8, ..config() });
    vad.begin_batch(&samples(0, 17));
    assert_eq!(vad.next_frame(0), Some((samples(0, 16), 8)));
    assert!(vad.frame_done(0, SILENCE));
    // Nine are left: a partial frame, filled up.
    let (frame, hop) = vad.next_frame(7).unwrap();
    assert_eq!(hop, 9);
    assert_eq!(frame[..9], samples(8, 17));
    assert_eq!(frame[9..], [7; 7]);
    assert!(vad.frame_done(7, SILENCE));
    assert_eq!(vad.next_frame(0), None);
    assert!(!vad.frame_done(0, SILENCE));
    // One is less than an eighth of a frame.
    vad.begin_batch(&samples(0, 1));
    assert_eq!(vad.next_frame(0), None);
    assert!(vad.finish_batch().is_empty());
}

#[test]
fn hysteresis_and_tolerance() {
    let quiet = FrameVerdict { smoothed_continues: true, ..SILENCE };
    let mut vad = SileroVad::new(VadConfig {
        hangbefore_frames: 3,
        hangover_frames: 3,
        silence_tolerance_frames: 2,
        ..config()
    });
    let frame = samples(0, 4);
    // The onset goes by the raw probability.
    let raw_only = FrameVerdict { raw_starts: true, ..SILENCE };
    assert_eq!(vad.process_frame(&frame, 2, raw_only), VadState::PossibleSpeech);
    assert_eq!(vad.process_frame(&frame, 2, SILENCE), VadState::PossibleSpeech);
    assert_eq!(vad.process_frame(&frame, 2, quiet), VadState::PossibleSpeech);
    assert_eq!(vad.process_frame(&frame, 2, SILENCE), VadState::PossibleSpeech);
    assert_eq!(vad.process_frame(&frame, 2, SILENCE), VadState::Silence);
    assert_eq!(vad.process_frame(&frame, 2, SPEECH), VadState::PossibleSpeech);
    assert_eq!(vad.process_frame(&frame, 2, SPEECH), VadState::PossibleSpeech);
    assert_eq!(vad.process_frame(&frame, 2, SPEECH), VadState::Speech);
    assert_eq!(vad.process_frame(&frame, 2, quiet), VadState::Speech);
    assert_eq!(vad.process_frame(&frame, 2, SILENCE), VadState::PossibleSilence);
    assert!(!vad.is_speaking());
    assert_eq!(vad.process_frame(&frame, 2, quiet), VadState::Speech);
    assert_eq!(vad.process_frame(&frame, 2, SILENCE), VadState::PossibleSilence);
    assert_eq!(vad.process_frame(&frame, 2, SILENCE), VadState::PossibleSilence);
    assert_eq!(vad.process_frame(&frame, 2, SILENCE), VadState::Silence);
    assert_eq!(vad.drain_speeches().len(), 1);
    assert!(vad.drain_speeches().is_empty());
}

#[test]
fn only_the_latest_segments_are_kept() {
    let mut vad = SileroVad::new(VadConfig { max_segment_count: 1, ..config() });
    let frame = samples(0, 4);
    for _ in 0..2 {
        for verdict in [SPEECH, SPEECH, SILENCE, SILENCE] {
            vad.process_frame(&frame, 2, verdict);
        }
    }
    let kept = vad.drain_speeches();
    assert_eq!(kept.len(), 1);
    assert!(kept[0].start_time > 0);
}

#[test]
fn the_history_is_cut() {
    let mut vad = SileroVad::new(VadConfig { max_buffer_duration: 20, ..config() });
    let frame = samples(0, 4);
    for _ in 0..29 {
        vad.process_frame(&frame, 2, SPEECH);
    }
    // Heard 4 + 28 * 2 = 60; the thirtieth frame makes 62, cut to the latest 20.
    vad.process_frame(&frame, 2, SPEECH);
    assert_eq!(vad.get_current_speech_duration(), Some(20));
    assert_eq!(vad.get_current_speech().unwrap().samples.len(), 20);
    // What went of the speech was queued.
    let mut heard = samples(0, 4);
    for _ in 0..19 {
        heard.extend(samples(2, 4));
    }
    let queued = vad.drain_speeches();
    assert_eq!(queued.len(), 1);
    assert_eq!(queued[0].samples, heard);
    assert_eq!((queued[0].start_time, queued[0].end_time), (0, 42));
    assert_eq!((queued[0].sample_rate, queued[0].is_manual), (10, false));
}

#[test]
fn silence_is_cut_without_a_segment() {
    let mut vad = SileroVad::new(VadConfig { max_buffer_duration: 20, ..config() });
    let frame = samples(0, 4);
    for _ in 0..30 {
        vad.process_frame(&frame, 2, SILENCE);
    }
    assert!(vad.drain_speeches().is_empty());
    assert_eq!(vad.get_current_speech_duration(), None);
}

#[test]
fn verdicts_move_the_state() {
    let raw_only = FrameVerdict { raw_starts: true, raw_continues: true, ..SILENCE };
    let mut vad = SileroVad::new(config());
    let frame = samples(0, 4);
    assert_eq!(vad.process_frame(&frame, 2, SILENCE), VadState::Silence);
    assert_eq!(vad.process_frame(&frame, 2, raw_only), VadState::PossibleSpeech);
    assert_eq!(vad.process_frame(&frame, 2, SPEECH), VadState::Speech);
    assert_eq!(vad.process_frame(&frame, 2, raw_only), VadState::PossibleSilence);
    assert!(vad.get_speeches().is_empty());
    assert_eq!(vad.process_frame(&frame, 2, SPEECH), VadState::Speech);
}

#[test]
fn default_configuration_and_rates() {
    let config = VadConfig::with_thresholds(0.2f32, 0.15, 0.3);
    assert_eq!((config.frame_size, config.hop_samples), (512, 160));
    assert_eq!(config.max_buffer_duration, 480000);
    assert_eq!(i64::from(SampleRate::EightkHz), 8000);
    assert_eq!(usize::from(SampleRate::SixteenkHz), 16000);
    assert_eq!(SampleRate::from(8000usize), SampleRate::EightkHz);
    assert_eq!(SampleRate::from(44100usize), SampleRate::SixteenkHz);
}

#[test]
fn pauses_are_found_in_the_middle() {
    let len = 512 + 160 * 99;
    assert_eq!(pause_frame_count(len), 100);
    assert_eq!(pause_frame_count(511), 0);
    let audio = vec![0u8; len];
    assert_eq!(pause_frame(&audio, 99).len(), 512);
    // Speech up to frame 9, silence up to frame 69, speech after that.
    let verdicts: Vec<Option<FrameVerdict>> = (0..100)
        .map(|k| Some(if (10..70).contains(&k) { SILENCE } else { SPEECH }))
        .collect();
    let config = pause_config(0.3f32, 0.2, 0.3, 16000, len);
    // The first silent frame leaves speech, the first speaking frame enters it.
    let start = 10 * 160;
    let end = 70 * 160;
    let points = find_pause_points(config.clone(), &audio, 16000, &verdicts);
    assert_eq!(points, vec![start + (end - start) / 2]);
    // A recording that ends in the pause.
    let silent: Vec<Option<FrameVerdict>> =
        (0..100).map(|k| Some(if k < 10 { SPEECH } else { SILENCE })).collect();
    let points = find_pause_points(config.clone(), &audio, 16000, &silent);
    assert_eq!(points, vec![start + (100 * 160 - start) / 2]);
    // No speech, no pauses; a model that fails tells nothing.
    let none = vec![None; 100];
    assert!(find_pause_points(config.clone(), &audio, 16000, &none).is_empty());
    let quiet = vec![Some(SILENCE); 100];
    assert!(find_pause_points(config, &audio, 16000, &quiet).is_empty());
}

#[test]
fn a_partial_frame_is_heard_as_it_came() {
    let config = VadConfig { frame_size: 16, hangbefore_frames: 1, ..config() };
    let mut vad = SileroVad::new(config);
    vad.begin_batch(&samples(1, 6));
    let (frame, hop) = vad.next_frame(0).unwrap();
    let mut filled = samples(1, 6);
    filled.extend(vec![0; 11]);
    assert_eq!((frame, hop), (filled, 5));
    assert!(vad.frame_done(0, SPEECH));
    assert!(vad.next_frame(0).is_none());
    vad.begin_batch(&samples(6, 13));
    assert!(vad.frame_done(0, SPEECH));
    // Twelve samples came in, and twelve were heard.
    assert_eq!(vad.get_current_speech_duration(), Some(12));
    assert_eq!(vad.get_current_speech().unwrap().samples, samples(1, 13));
    // Fewer than an eighth of a frame wait.
    vad.begin_batch(&samples(13, 14));
    assert!(vad.next_frame(0).is_none());
    assert!(!vad.frame_done(0, SPEECH));
}

#[test]
fn the_state_machine_by_itself() {
    let mut vad: SileroVad<(), u32> = SileroVad::new(config());
    vad.update_vad_state(FrameVerdict { raw_starts: true, ..SILENCE });
    assert_eq!(vad.get_state(), VadState::PossibleSpeech);
    vad.update_vad_state(SPEECH);
    assert_eq!(vad.get_state(), VadState::Speech);
    vad.update_vad_state(SILENCE);
    assert_eq!(vad.get_state(), VadState::PossibleSilence);
}
