use speechcore::backend::parakeet::backend::ParakeetBackend;
use speechcore::backend::parakeet::decoder::{greedy_decode_tdt, JoinerAnswer, TdtDecoder};
use speechcore::backend::parakeet::model::{resolve_model_file, ParakeetModel};
use speechcore::backend::parakeet::tokenizer::{
    missing_tokens_error, unreadable_tokens_error, ParakeetTokenizer,
};

#[test]
fn vocabularies_are_read() {
    let text = "<unk> 0\r\n\u{2581}he 1\n\nllo 2\n\u{2581}wor ld 3\n  ! 4 \n";
    let tokenizer = ParakeetTokenizer::from_text(text).unwrap();
    assert_eq!(tokenizer.vocab_size(), 5);
    assert_eq!(tokenizer.blank_id(), 4);
    assert_eq!(tokenizer.decode(&[1, 2, 3, 99, 4]), "hello wor ld!");
    assert_eq!(tokenizer.decode(&[]), "");
    assert_eq!(tokenizer.decode(&[77, 78]), "");
}

#[test]
fn later_lines_win() {
    let tokenizer = ParakeetTokenizer::from_text("a 1\nb 1\n").unwrap();
    assert_eq!((tokenizer.vocab_size(), tokenizer.blank_id()), (1, 1));
    assert_eq!(tokenizer.decode(&[1]), "b");
    let empty = ParakeetTokenizer::from_text("").unwrap();
    assert_eq!((empty.vocab_size(), empty.blank_id()), (0, 0));
}

#[test]
fn faulty_vocabularies_are_refused() {
    let refusal = |text: &str| ParakeetTokenizer::from_text(text).unwrap_err().to_string();
    assert_eq!(
        refusal("a 1\nlonely\nb x"),
        "Model not available: Invalid tokens.txt line (no space): lonely"
    );
    assert_eq!(
        refusal("a x1"),
        "Model not available: Invalid token ID 'x1': invalid digit found in string"
    );
    assert_eq!(
        refusal("a 4294967296"),
        "Model not available: Invalid token ID '4294967296': number too large to fit in target type"
    );
    assert_eq!(
        missing_tokens_error("d/tokens.txt").to_string(),
        "Model not available: Parakeet tokens.txt not found: d/tokens.txt"
    );
    assert_eq!(
        unreadable_tokens_error("d/tokens.txt", "denied").to_string(),
        "I/O error: Failed to read d/tokens.txt: denied"
    );
}

fn answer(token: u32, duration: usize) -> JoinerAnswer {
    JoinerAnswer { token, duration }
}

#[test]
fn tokens_and_durations() {
    let answers =
        [answer(5, 0), answer(9, 2), answer(6, 4), answer(7, 1), answer(8, 1), answer(1, 1)];
    // Frames 0, 1 (blank), 3, 7, 8; nine frames in all.
    assert_eq!(greedy_decode_tdt(9, 10, 9, 100, &answers), vec![5, 6, 7, 8]);
    assert_eq!(greedy_decode_tdt(9, 10, 9, 3, &answers), vec![5, 6]);
    assert_eq!(greedy_decode_tdt(0, 10, 9, 100, &answers), Vec::<u32>::new());
    let blanks = [answer(9, 0); 20];
    assert!(greedy_decode_tdt(20, 10, 9, 100, &blanks).is_empty());
}

#[test]
fn decoding_step_by_step() {
    let mut decoder = TdtDecoder::new(2, 10, 9, 100);
    assert_eq!(decoder.next_frame(), Some(0));
    assert_eq!(decoder.split_scores(15).unwrap(), (10, 15));
    assert_eq!(
        decoder.split_scores(14).unwrap_err().to_string(),
        "Inference error: Joiner output too small: 14 (expected at least 15)"
    );
    assert_eq!(decoder.frame_done(answer(3, 1)), Some(3));
    assert_eq!(decoder.next_frame(), Some(1));
    assert_eq!(decoder.frame_done(answer(9, 1)), None);
    assert_eq!(decoder.next_frame(), None);
    assert_eq!(decoder.tokens(), &vec![3]);
}

#[test]
fn model_files() {
    let present = vec!["encoder.onnx".to_string()];
    let candidates = ParakeetModel::candidates("encoder");
    assert_eq!(
        resolve_model_file("m", "encoder", &candidates, &present).unwrap(),
        "m/encoder.onnx"
    );
    assert_eq!(
        resolve_model_file("m", "joiner", &ParakeetModel::candidates("joiner"), &present)
            .unwrap_err(),
        "Missing Parakeet joiner model. Tried: joiner.int8.onnx, joiner.onnx"
    );
    assert_eq!(
        ParakeetModel::validate_model_dir(&present).unwrap_err(),
        "Missing Parakeet decoder model (decoder.int8.onnx or decoder.onnx)"
    );
    assert!(ParakeetBackend::check_sample_rate(16000).is_ok());
    assert_eq!(
        ParakeetBackend::check_sample_rate(8000).unwrap_err().to_string(),
        "Invalid audio: Parakeet expects 16000Hz audio, got 8000Hz"
    );
    assert_eq!(
        ParakeetBackend::load_error("x").to_string(),
        "Model not available: Parakeet model load failed: x"
    );
}
