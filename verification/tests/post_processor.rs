use speechcore::config::PostProcessConfig;
use speechcore::post_processor::{
    capitalize_sentences, collapse_repeated_words, ensure_terminal_punctuation,
    normalize_whitespace, post_process_text, remove_fillers, remove_leading_dashes,
    remove_trailing_dashes, word_core,
};

fn cfg() -> PostProcessConfig {
    PostProcessConfig::default()
}

#[test]
fn disabled_config_is_a_passthrough() {
    let config = PostProcessConfig { enabled: false, ..cfg() };
    let input = "  um   so    I  said  ".to_string();
    assert_eq!(post_process_text(input.clone(), &config), input);
}

#[test]
fn fillers_are_dropped_with_their_punctuation() {
    assert_eq!(
        remove_fillers("Um, I think uh we should go".to_string()),
        "I think we should go"
    );
}

#[test]
fn fillers_only_match_whole_words() {
    // "humming" contains "hm"; "Umbrella" starts with "um".
    assert_eq!(
        remove_fillers("Umbrella humming hmmm".to_string()),
        "Umbrella humming hmmm"
    );
}

#[test]
fn repeated_words_collapse_across_a_stutter() {
    assert_eq!(
        collapse_repeated_words("I I went to the the shop".to_string()),
        "I went to the shop"
    );
}

#[test]
fn repetition_across_punctuation_is_intentional() {
    // The speaker meant both of these; only stutters should collapse.
    assert_eq!(
        collapse_repeated_words("No, no it is done. Done.".to_string()),
        "No, no it is done. Done."
    );
}

#[test]
fn sentences_are_capitalized_after_terminators() {
    assert_eq!(
        capitalize_sentences("hello there. how are you? good!".to_string()),
        "Hello there. How are you? Good!"
    );
}

#[test]
fn terminal_punctuation_is_added_only_when_missing() {
    assert_eq!(
        ensure_terminal_punctuation("no full stop".to_string()),
        "no full stop."
    );
    assert_eq!(
        ensure_terminal_punctuation("already there!".to_string()),
        "already there!"
    );
}

#[test]
fn removals_do_not_leave_double_spaces() {
    let config = PostProcessConfig { collapse_repeated_words: true, ..cfg() };
    assert_eq!(
        post_process_text("- I um went went to the shop -".to_string(), &config),
        "I went to the shop"
    );
}

#[test]
fn defaults_leave_ordinary_dictation_alone() {
    // The risky transforms are off by default, so a well-formed transcript
    // from a backend that already punctuates is untouched.
    let input = "I had had enough. That that is fine!".to_string();
    assert_eq!(post_process_text(input.clone(), &cfg()), input);
}

#[test]
fn all_fillers_leaves_empty_text() {
    assert_eq!(post_process_text("Um, uh. Hmm".to_string(), &cfg()), "");
}

#[test]
fn all_rules_together() {
    let config = PostProcessConfig {
        collapse_repeated_words: true,
        capitalize_sentences: true,
        ensure_terminal_punctuation: true,
        ..cfg()
    };
    assert_eq!(
        post_process_text(" -- so um the the\tend. it \u{e9}t\u{e9} ".to_string(), &config),
        "So the end. It \u{e9}t\u{e9}."
    );
}

#[test]
fn whitespace_is_normalized_once_and_for_all() {
    let once = normalize_whitespace("  a\t\tb \n c\u{2003}d\u{a0} ".to_string());
    assert_eq!(once, "a b c d");
    assert_eq!(normalize_whitespace(once.clone()), once);
    assert_eq!(normalize_whitespace("   ".to_string()), "");
}

#[test]
fn dashes_at_the_ends_go() {
    assert_eq!(remove_leading_dashes("  --- hello".to_string()), "hello");
    assert_eq!(remove_leading_dashes("  hello".to_string()), "  hello");
    assert_eq!(remove_leading_dashes("- - a".to_string()), "- a");
    assert_eq!(remove_trailing_dashes("hello -- ".to_string()), "hello");
    assert_eq!(remove_trailing_dashes("hello ".to_string()), "hello ");
}

#[test]
fn cores_strip_marks_and_case() {
    assert_eq!(word_core("\"Um,\""), "um");
    assert_eq!(word_core("\u{c9}T\u{c9}!"), "\u{e9}t\u{e9}");
    assert_eq!(word_core("..."), "");
    assert_eq!(collapse_repeated_words("... ...".to_string()), "... ...");
}

#[test]
fn capitals_outside_ascii() {
    assert_eq!(capitalize_sentences("\u{e9}t\u{e9}. \u{df}a".to_string()), "\u{c9}t\u{e9}. SSa");
    assert_eq!(capitalize_sentences("1. go".to_string()), "1. Go");
}

#[test]
fn a_full_stop_is_added_once() {
    let once = ensure_terminal_punctuation("done  ".to_string());
    assert_eq!(once, "done.");
    assert_eq!(ensure_terminal_punctuation(once.clone()), once);
    assert_eq!(ensure_terminal_punctuation("".to_string()), "");
}

#[test]
fn no_double_spaces_are_left() {
    let config = PostProcessConfig {
        enabled: true,
        remove_leading_dashes: true,
        remove_trailing_dashes: true,
        normalize_whitespace: true,
        remove_fillers: true,
        collapse_repeated_words: true,
        capitalize_sentences: true,
        ensure_terminal_punctuation: true,
    };
    assert_eq!(
        post_process_text("-- um  so so   it is.  well \t then -".to_string(), &config),
        "So it is. Well then."
    );
    assert_eq!(post_process_text(" \t -- ".to_string(), &config), "");
}

#[test]
fn collapsing_keeps_the_first_and_settles() {
    let once = collapse_repeated_words("The the, the  cat (cat) cat".to_string());
    assert_eq!(once, "The cat");
    assert_eq!(collapse_repeated_words(once.clone()), once);
    let once = collapse_repeated_words("no, no no - - yes Yes!".to_string());
    assert_eq!(once, "no, no - - yes");
    assert_eq!(collapse_repeated_words(once.clone()), once);
}

#[test]
fn case_mapping_loses_no_character() {
    assert_eq!(word_core("(\u{130}STANBUL)"), "i\u{307}stanbul");
    assert_eq!(word_core("\u{df}"), "\u{df}");
    assert_eq!(capitalize_sentences("\u{df}o. \u{e9}t".to_string()), "SSo. \u{c9}t");
    assert_eq!(
        collapse_repeated_words("\u{c9}t\u{e9} \u{e9}t\u{c9} \u{e9}t\u{e9}!".to_string()),
        "\u{c9}t\u{e9}"
    );
}
