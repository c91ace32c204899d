use speechcore::backend::mel::{frame_count, next_noise, reflect_pad, DITHER_SEED};
use speechcore::backend::nemotron::backend::{detokenize, resolve_lang, NemotronBackend};
use speechcore::backend::nemotron::decoder::{decode_frames, RnntDecoder, BLANK};
use speechcore::backend::nemotron::lang::{lang_id, supported_locales};
use speechcore::backend::nemotron::model::{
    load_vocab, plan_chunks, EncoderChunk, NemotronModel,
};
use speechcore::config::NemotronOptions;
use speechcore::BackendConfig;

#[test]
fn known_locales_resolve() {
    assert_eq!(lang_id("en-US"), 0);
    assert_eq!(lang_id("EN"), 0); // case-insensitive alias
    assert_eq!(lang_id("de-DE"), 9);
    assert_eq!(lang_id("auto"), 101);
    assert_eq!(lang_id("nb-NO"), 103);
}

#[test]
fn unknown_falls_back_to_english() {
    assert_eq!(lang_id("xx-XX"), 0);
}

#[test]
fn offered_locales_have_slots() {
    let locales = supported_locales();
    assert_eq!(locales.len(), 41);
    assert_eq!((locales[0].as_str(), locales[40].as_str()), ("auto", "mt-MT"));
    for locale in &locales {
        assert!(locale == "en-US" || lang_id(locale) != 0, "{}", locale);
    }
    for (i, a) in locales.iter().enumerate() {
        for b in &locales[..i] {
            assert_ne!(lang_id(a), lang_id(b), "{} {}", a, b);
        }
    }
    for locale in ["  De-dE\n", "auto", "xx", "", " PT"] {
        let id = lang_id(locale);
        assert_eq!(lang_id(locale.trim()), id);
        assert_eq!(lang_id(&locale.to_ascii_uppercase()), id);
        assert_eq!(lang_id(&locale.to_ascii_lowercase()), id);
        assert!((0..128).contains(&id));
    }
    assert_eq!(lang_id("  nn\t"), 104);
    assert_eq!(lang_id("fr-CA"), 100);
}

#[test]
fn the_backends_own_locale_wins() {
    let own = NemotronOptions { language: "de".to_string() };
    assert_eq!(resolve_lang("fr", &own), 9);
    assert_eq!(resolve_lang("fr", &NemotronOptions::default()), 8);
    assert_eq!(resolve_lang("fr", &NemotronOptions { language: " ".to_string() }), 8);
}

#[test]
fn text_from_tokens() {
    let vocab = load_vocab("<unk>\n\u{2581}he\nllo\n<en-US>\n\u{2581}<\n");
    assert_eq!(vocab.len(), 5);
    assert_eq!(detokenize(&vec![1, 0, 2, 3, 4, -1, 99], &vocab), "hello <");
    assert_eq!(detokenize(&vec![], &vocab), "");
}

#[test]
fn frames_emit_up_to_ten_tokens() {
    assert_eq!(decode_frames(2, &[1, 2, BLANK, 3, BLANK, 4], vec![9]), vec![9, 1, 2, 3]);
    // The eleventh answer at a frame is dropped.
    let answers: Vec<i64> = (1..=12).collect();
    assert_eq!(
        decode_frames(2, &answers, vec![]),
        vec![1, 2, 3, 4, 5, 6, 7, 8, 9, 10, 12]
    );
    let mut decoder = RnntDecoder::new(1, vec![]);
    assert!(decoder.goes_on());
    assert_eq!(decoder.answered(5), Some(5));
    assert_eq!(decoder.answered(BLANK), None);
    assert!(!decoder.goes_on());
    assert_eq!(decoder.into_tokens(), vec![5]);
}

fn chunk(start: usize, new_frames: usize) -> EncoderChunk {
    EncoderChunk { start, new_frames }
}

#[test]
fn chunks_of_frames() {
    assert_eq!(plan_chunks(0, 120, true), vec![chunk(0, 56), chunk(56, 56), chunk(112, 8)]);
    assert_eq!(plan_chunks(0, 120, false), vec![chunk(0, 56), chunk(56, 56)]);
    assert_eq!(plan_chunks(2, 120, true), vec![chunk(112, 8)]);
    assert!(plan_chunks(5, 120, true).is_empty());
    assert!(plan_chunks(0, 0, true).is_empty());
    assert_eq!(plan_chunks(0, 112, true), vec![chunk(0, 56), chunk(56, 56)]);
}

#[test]
fn streaming_an_utterance() {
    let mut backend = NemotronBackend::<u8>::new(&BackendConfig::default());
    assert_eq!(
        backend.stream_push(&[1]).unwrap_err().to_string(),
        "Inference error: stream not started"
    );
    assert!(backend.chunks_to_encode(100, false).is_none());
    backend.stream_reset("de", &NemotronOptions::default());
    backend.stream_push(&[1, 2]).unwrap();
    backend.stream_push(&[3]).unwrap();
    assert_eq!(backend.stream_samples(), Some(&vec![1, 2, 3]));
    let (lang, chunks) = backend.chunks_to_encode(60, false).unwrap();
    assert_eq!((lang, chunks), (9, vec![chunk(0, 56)]));
    backend.chunk_encoded();
    let tokens = decode_frames(1, &[1, BLANK], backend.take_tokens());
    let vocab = load_vocab("a\n\u{2581}b");
    assert_eq!(backend.put_tokens(tokens, &vocab), "b");
    assert_eq!(backend.chunks_to_encode(60, true).unwrap().1, vec![chunk(56, 4)]);
    assert_eq!(backend.take_tokens(), vec![1]);
    assert_eq!(backend.put_tokens(vec![1, 0], &vocab), "ba");
    assert_eq!(backend.stream_finish(&vocab), "ba");
    assert!(backend.stream_samples().is_none());
    assert!(backend.take_tokens().is_empty());
    assert_eq!(
        backend.stream_push(&[1]).unwrap_err().to_string(),
        "Inference error: stream not started"
    );
    assert!(backend.chunks_to_encode(60, true).is_none());
    assert_eq!(backend.stream_finish(&vocab), "");
    backend.stream_reset("de", &NemotronOptions::default());
    assert!(backend.stream_push(&[1]).is_ok());
    assert_eq!(backend.stream_finish(&vocab), "");
}

/// An encoder whose frames rest on the chunk and on how many came before it.
fn encode(before: usize, chunk: &EncoderChunk) -> Vec<i64> {
    (0..chunk.new_frames / 8).map(|t| (before * 7 + t) as i64).collect()
}

/// Decodes frames with a joiner that answers by the frame and the tokens so far.
fn decode(frames: &[i64], tokens: Vec<i64>) -> Vec<i64> {
    let mut so_far = tokens.clone();
    let mut decoder = RnntDecoder::new(frames.len(), tokens);
    let mut at = 0;
    while decoder.goes_on() {
        let k = (frames[at] + 3 * so_far.len() as i64) % 5;
        match decoder.answered(if k == 0 { BLANK } else { k }) {
            Some(token) => so_far.push(token),
            None => at += 1,
        }
    }
    decoder.into_tokens()
}

#[test]
fn streaming_transcribes_as_offline_does() {
    let mut frames = Vec::new();
    for (c, chunk) in plan_chunks(0, 300, true).iter().enumerate() {
        frames.extend(encode(c, chunk));
    }
    let offline = decode(&frames, Vec::new());
    assert!(!offline.is_empty());
    let (mut done, mut streamed) = (0, Vec::new());
    for (total, flush) in [(10, false), (56, false), (130, false), (299, false), (300, true)] {
        let mut frames = Vec::new();
        for chunk in plan_chunks(done, total, flush) {
            frames.extend(encode(done, &chunk));
            done += 1;
        }
        streamed = decode(&frames, streamed);
    }
    assert_eq!(streamed, offline);
    let vocab = load_vocab("a\nb\n\u{2581}c\nd\n\u{2581}e");
    assert_eq!(detokenize(&streamed, &vocab), detokenize(&offline, &vocab));
}

#[test]
fn model_files_are_checked() {
    let present = vec!["encoder.onnx".to_string(), "decoder.onnx".to_string()];
    assert_eq!(
        NemotronModel::validate_model_dir(&present).unwrap_err(),
        "Missing Nemotron model file: joint.onnx"
    );
}

#[test]
fn framing_and_padding() {
    assert_eq!(frame_count(399, 400, 160), 0);
    assert_eq!(frame_count(400, 400, 160), 1);
    assert_eq!(frame_count(560, 400, 160), 2);
    assert_eq!(reflect_pad(&[1, 2, 3, 4], 2, 0), vec![3, 2, 1, 2, 3, 4, 3, 2]);
    assert_eq!(reflect_pad(&[1, 2], 2, 0), vec![0, 0, 1, 2, 0, 0]);
    let mut s = DITHER_SEED;
    s ^= s << 13;
    s ^= s >> 17;
    s ^= s << 5;
    assert_eq!(next_noise(DITHER_SEED), s);
}

#[test]
fn streaming_encodes_what_offline_does() {
    let offline = plan_chunks(0, 300, true);
    let mut streamed = Vec::new();
    for total in [10, 56, 56, 130, 299] {
        streamed.extend(plan_chunks(streamed.len(), total, false));
    }
    streamed.extend(plan_chunks(streamed.len(), 300, true));
    assert_eq!(streamed, offline);
    assert_eq!(offline.len(), 6);
}

#[test]
fn decoding_in_batches() {
    let at_once = decode_frames(3, &[4, BLANK, BLANK, 5, 6, BLANK], vec![]);
    let first = decode_frames(1, &[4, BLANK], vec![]);
    let both = decode_frames(2, &[BLANK, 5, 6, BLANK], first);
    assert_eq!(both, at_once);
    assert_eq!(at_once, vec![4, 5, 6]);
}
