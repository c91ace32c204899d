use speechcore::backend::moonshine::backend::{
    build_scalar_bool, check_cached_decoder, greedy_decode, initial_cache_dims, next_token_scores,
    GreedyDecoder, MoonshineBackend, ScalarFlag,
};
use speechcore::backend::moonshine::model::{
    has_merged_layout, resolve_flavor, resolve_names, CachedNames, MoonshineLayout, MoonshineModel,
};
use speechcore::backend::moonshine::names::{
    cached_input_shape, is_cache_tensor, is_present_tensor, resolve_name,
    resolve_optional_input_name, resolve_optional_input_type, ElementType, InputInfo, SessionInfo,
    TensorInfo,
};
use speechcore::backend::moonshine::tokenizer::{
    missing_tokenizer_error, resolve_special_token, tokenizer_load_error, MoonshineTokenizer,
};
use std::str::FromStr;
use tokenizers::Tokenizer;

fn list(names: &[&str]) -> Vec<String> {
    names.iter().map(|s| s.to_string()).collect()
}

fn tensor(name: &str, element: ElementType, shape: &[i64]) -> InputInfo {
    InputInfo {
        name: name.to_string(),
        tensor: Some(TensorInfo { element, shape: shape.to_vec() }),
    }
}

fn session(inputs: &[&str], outputs: &[&str]) -> SessionInfo {
    SessionInfo {
        inputs: inputs.iter().map(|n| tensor(n, ElementType::Float32, &[1])).collect(),
        outputs: list(outputs),
    }
}

#[test]
fn names_are_resolved() {
    let names = list(&["my_tokens_x", "INPUT_IDS", "other"]);
    // Exact names come before similar ones, whatever the order of candidates.
    assert_eq!(resolve_name(&names, &list(&["tokens", "input_ids"]), "ids").unwrap(), "INPUT_IDS");
    assert_eq!(resolve_name(&names, &list(&["Tokens"]), "ids").unwrap(), "my_tokens_x");
    assert_eq!(resolve_name(&list(&["only"]), &list(&["tokens"]), "ids").unwrap(), "only");
    let error = resolve_name(&names, &list(&["logits"]), "decoder logits").unwrap_err();
    assert_eq!(error.label, "decoder logits");
    assert_eq!(error.candidates, list(&["logits"]));
    assert_eq!(error.available, names);
}

#[test]
fn optional_names() {
    let inputs = vec![
        InputInfo { name: "use_cache".to_string(), tensor: None },
        tensor("Use_Cache_Branch", ElementType::Bool, &[1]),
        tensor("x", ElementType::Int64, &[1]),
    ];
    let (name, element) =
        resolve_optional_input_type(&inputs, &list(&["use_cache_branch", "use_cache"])).unwrap();
    assert_eq!(name, "Use_Cache_Branch");
    assert!(matches!(element, ElementType::Bool));
    // The exact name is no tensor; the similar one is.
    let (name, _) = resolve_optional_input_type(&inputs, &list(&["use_cache"])).unwrap();
    assert_eq!(name, "Use_Cache_Branch");
    assert!(resolve_optional_input_type(&inputs, &list(&["mask"])).is_none());
    assert_eq!(
        resolve_optional_input_name(&inputs, &list(&["use_cache"])).as_deref(),
        Some("use_cache")
    );
    assert_eq!(resolve_optional_input_name(&inputs, &list(&["mask"])), None);
}

#[test]
fn state_tensors() {
    assert!(is_cache_tensor("PAST_0") && is_cache_tensor("key_values.1") && !is_cache_tensor("x"));
    assert!(is_present_tensor("Present.0") && !is_present_tensor("past"));
}

#[test]
fn all_names_of_a_model() {
    let encoder = session(&["input_values", "attention_mask"], &["last_hidden_state"]);
    let decoder = session(
        &["input_ids", "encoder_hidden_states", "encoder_attention_mask"],
        &["logits", "present.0"],
    );
    let cached = session(
        &["input_ids", "encoder_hidden_states", "past_key_values.0"],
        &["logits", "present.0"],
    );
    let names = resolve_names(&None, &encoder, &decoder, &Some(cached)).unwrap();
    assert_eq!(names.preprocess_input, "input_values");
    assert_eq!(names.encoder_input, "input_values");
    assert_eq!(names.encoder_attention_mask.as_deref(), Some("attention_mask"));
    assert_eq!(names.encoder_output, "last_hidden_state");
    assert_eq!(names.decoder_logits, "logits");
    assert_eq!(
        names.decoder_encoder_attention_mask.as_deref(),
        Some("encoder_attention_mask")
    );
    assert!(names.decoder_use_cache_branch.is_none());
    let cached = names.cached.unwrap();
    assert_eq!(cached.past_inputs, list(&["past_key_values.0"]));
    assert_eq!(cached.present_outputs, list(&["present.0"]));

    let faulty = session(&["a", "b"], &["c", "d"]);
    let error = resolve_names(&Some(faulty.clone()), &encoder, &decoder, &None).unwrap_err();
    assert_eq!(error.label, "preprocess input");
    let error = resolve_names(&None, &encoder, &faulty, &None).unwrap_err();
    assert_eq!(error.label, "decoder input_ids");
    let error = resolve_names(&None, &encoder, &decoder, &Some(faulty)).unwrap_err();
    assert_eq!(error.label, "cached decoder input_ids");
}

#[test]
fn flavors() {
    let tiny = resolve_flavor("/m/moonshine-tiny-onnx").unwrap();
    assert_eq!((tiny.token_rate, tiny.num_layers, tiny.head_dim), (6, 6, 36));
    let base = resolve_flavor("base-es").unwrap();
    assert_eq!((base.token_rate, base.num_layers, base.head_dim), (6, 8, 52));
    assert_eq!(resolve_flavor("moonshine-tiny-ja-onnx/").unwrap().token_rate, 13);
    assert_eq!(resolve_flavor("x/moonshine-tiny-uk-onnx").unwrap().token_rate, 8);
    assert!(resolve_flavor("moonshine-tiny").is_none());
    assert!(resolve_flavor("..").is_none());
}

#[test]
fn loading_plans() {
    let bare = list(&["encoder_model.onnx", "decoder_model_merged.onnx"]);
    assert_eq!(
        MoonshineModel::plan_load("m", &bare).unwrap_err(),
        "Failed to read Moonshine preprocessor config: m/preprocessor_config.json"
    );
    assert_eq!(
        MoonshineModel::validate_model_dir("m", &bare).unwrap_err(),
        "Missing Moonshine preprocessor config: m/preprocessor_config.json"
    );
    let untold = list(&[
        "encoder_model.onnx",
        "decoder_model_merged.onnx",
        "preprocessor_config.json",
    ]);
    assert!(has_merged_layout(&untold));
    assert_eq!(
        MoonshineModel::plan_load("m", &untold).unwrap_err(),
        "Missing Moonshine tokenizer: m/tokenizer.json"
    );
    let merged = list(&[
        "encoder_model.onnx",
        "decoder_model_merged.onnx",
        "preprocessor_config.json",
        "tokenizer.json",
    ]);
    let plan = MoonshineModel::plan_load("m", &merged).unwrap();
    assert_eq!(plan.layout, MoonshineLayout::Merged);
    assert_eq!(plan.decoder, "m/decoder_model_merged.onnx");
    assert_eq!(plan.preprocess, None);
    assert_eq!(plan.preprocessor_config.as_deref(), Some("m/preprocessor_config.json"));
    assert_eq!(plan.decoder_cached, None);
    assert!(MoonshineModel::validate_model_dir("m", &merged).is_ok());
    let legacy = list(&[
        "preprocess.onnx",
        "encode.onnx",
        "uncached_decode.onnx",
        "cached_decode.onnx",
        "tokenizer.json",
    ]);
    let plan = MoonshineModel::plan_load("m", &legacy).unwrap();
    assert_eq!(plan.layout, MoonshineLayout::Legacy);
    assert_eq!(plan.encoder, "m/encode.onnx");
    assert_eq!(plan.preprocess.as_deref(), Some("m/preprocess.onnx"));
    assert_eq!(plan.decoder_cached.as_deref(), Some("m/cached_decode.onnx"));
    assert!(MoonshineModel::validate_model_dir("m", &legacy).is_ok());
    assert_eq!(
        MoonshineModel::plan_load("m", &list(&[])).unwrap_err(),
        "Missing Moonshine preprocessor model: m/preprocess.onnx"
    );
    assert_eq!(
        MoonshineModel::plan_load("m", &legacy[..4].to_vec()).unwrap_err(),
        "Missing Moonshine tokenizer: m/tokenizer.json"
    );
    assert_eq!(MoonshineModel::resolve_paths("m").decoder, "m/uncached_decode.onnx");
}

#[test]
fn greedy_decoding() {
    assert_eq!(greedy_decode(1, 2, 10, &[5, 6, 2, 7]), vec![1, 5, 6]);
    assert_eq!(greedy_decode(1, 2, 2, &[5, 6, 7]), vec![1, 5, 6]);
    assert_eq!(greedy_decode(1, 2, 0, &[5]), vec![1]);
    let mut decoder = GreedyDecoder::new(1, 2, 5);
    assert!(decoder.goes_on());
    decoder.answered(9);
    assert_eq!(decoder.tokens(), &vec![1, 9]);
    decoder.answered(2);
    assert!(!decoder.goes_on());
}

#[test]
fn cached_decoders() {
    assert_eq!(
        check_cached_decoder(&None).unwrap_err().to_string(),
        "Backend not implemented: Moonshine cached decoder not available"
    );
    let mut names = CachedNames {
        input_ids: "i".to_string(),
        encoder_states: "e".to_string(),
        past_inputs: list(&["p0", "p1"]),
        logits: "l".to_string(),
        present_outputs: list(&["q0"]),
    };
    assert_eq!(
        check_cached_decoder(&Some(names.clone())).unwrap_err().to_string(),
        "Inference error: Moonshine cached decoder past/present mismatch (2 vs 1)"
    );
    names.past_inputs.clear();
    assert!(check_cached_decoder(&Some(names)).is_ok());
}

#[test]
fn initial_states() {
    let inputs = vec![
        tensor("past_key_values.0", ElementType::Float32, &[-1, 8, -1, 36]),
        tensor("ids", ElementType::Int64, &[1]),
        tensor("half", ElementType::Other("Float16".to_string()), &[1]),
        InputInfo { name: "map".to_string(), tensor: None },
    ];
    let tiny = resolve_flavor("tiny");
    assert_eq!(initial_cache_dims(&inputs, "past_key_values.0", tiny).unwrap(), vec![0, 8, 1, 36]);
    assert_eq!(initial_cache_dims(&inputs, "past_key_values.0", None).unwrap(), vec![1, 8, 0, 36]);
    let refusal =
        |name: &str, flavor| initial_cache_dims(&inputs, name, flavor).unwrap_err().to_string();
    assert_eq!(
        refusal("gone", None),
        "Inference error: Failed to read cached decoder input shape: Cached decoder missing input: gone"
    );
    assert_eq!(
        refusal("past_key_values.9", tiny),
        "Inference error: Missing cached decoder input metadata: past_key_values.9"
    );
    assert_eq!(
        refusal("map", None),
        "Inference error: Failed to read cached decoder input shape: Cached decoder input is not a tensor: map"
    );
    assert_eq!(
        refusal("ids", None),
        "Inference error: Cached decoder input ids has unsupported type Int64"
    );
    assert_eq!(
        refusal("half", None),
        "Inference error: Cached decoder input half has unsupported type Float16"
    );
    assert_eq!(cached_input_shape(&inputs, "ids").unwrap(), vec![1]);
}

#[test]
fn flags_by_type() {
    assert_eq!(build_scalar_bool(true, &ElementType::Bool).unwrap(), ScalarFlag::Bool(true));
    assert_eq!(build_scalar_bool(true, &ElementType::Int64).unwrap(), ScalarFlag::Int64(1));
    assert_eq!(build_scalar_bool(false, &ElementType::Int32).unwrap(), ScalarFlag::Int32(0));
    assert_eq!(
        build_scalar_bool(true, &ElementType::Float32).unwrap_err().to_string(),
        "Inference error: Unsupported use_cache_branch type: Float32"
    );
}

#[test]
fn scores_of_the_next_token() {
    assert_eq!(next_token_scores(&[7]).unwrap(), (0, 7));
    assert_eq!(next_token_scores(&[3, 7]).unwrap(), (14, 21));
    assert_eq!(next_token_scores(&[2, 3, 7]).unwrap(), (14, 21));
    assert_eq!(
        next_token_scores(&[1, 2, 3, 4]).unwrap_err().to_string(),
        "Inference error: Unsupported logits shape: [1, 2, 3, 4]"
    );
    assert_eq!(
        next_token_scores(&[]).unwrap_err().to_string(),
        "Inference error: Unsupported logits shape: []"
    );
}

#[test]
fn sample_rates() {
    assert!(MoonshineBackend::check_sample_rate(None, 16000).is_ok());
    assert!(MoonshineBackend::check_sample_rate(Some(8000), 8000).is_ok());
    assert_eq!(
        MoonshineBackend::check_sample_rate(Some(8000), 16000).unwrap_err().to_string(),
        "Invalid audio: Moonshine expects 8000Hz audio, got 16000Hz"
    );
    assert_eq!(
        MoonshineBackend::load_error("x").to_string(),
        "Model not available: Moonshine model load failed: x"
    );
}

fn tokenizer(vocab: &str) -> Tokenizer {
    let json = format!(
        "{{\"version\":\"1.0\",\"truncation\":null,\"padding\":null,\"added_tokens\":[],\
         \"normalizer\":null,\"pre_tokenizer\":null,\"post_processor\":null,\"decoder\":null,\
         \"model\":{{\"type\":\"WordLevel\",\"vocab\":{},\"unk_token\":\"?\"}}}}",
        vocab
    );
    Tokenizer::from_str(&json).unwrap()
}

#[test]
fn special_tokens() {
    let t = tokenizer("{\"?\":0,\"<bos>\":3,\"<|startoftext|>\":4,\"<eos>\":5,\"hi\":6}");
    assert_eq!(resolve_special_token(&t, &list(&["no", "hi", "<bos>"])), Some(6));
    assert_eq!(resolve_special_token(&t, &list(&["no"])), None);
    let moonshine = MoonshineTokenizer::new(t).unwrap();
    assert_eq!(moonshine.bos_token_id(), 4);
    assert_eq!(moonshine.eos_token_id(), 5);
    assert_eq!(moonshine.tokenizer().decode(&[6], true).unwrap(), "hi");
    assert_eq!(
        MoonshineTokenizer::new(tokenizer("{\"?\":0,\"</s>\":1}")).unwrap_err().to_string(),
        "Model not available: Moonshine tokenizer missing BOS token"
    );
    assert_eq!(
        MoonshineTokenizer::new(tokenizer("{\"?\":0,\"<s>\":1}")).unwrap_err().to_string(),
        "Model not available: Moonshine tokenizer missing EOS token"
    );
    assert_eq!(
        missing_tokenizer_error("p").to_string(),
        "Model not available: Moonshine tokenizer not found: p"
    );
    assert_eq!(
        tokenizer_load_error("bad").to_string(),
        "Model not available: Failed to load Moonshine tokenizer: bad"
    );
}
