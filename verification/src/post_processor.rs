//! Text post-processing for transcription cleanup: removal of artifacts like
//! leading and trailing dashes, of filler and repeated words, normalization of
//! whitespace, and punctuation.

use vstd::prelude::*;
use vstd::string::*;

use crate::config::PostProcessConfig;
use crate::text::chars::{
    all_ascii, alphabetic, alphanumeric, is_alphabetic, is_alphanumeric, lowercase_text,
    to_lowercase_text, to_uppercase, uppercase, white_space,
};
use crate::text::strings::{
    all_words, chars_of, concat_all, is_word, join, joined, law_joined_words_are_singly_spaced,
    law_joined_words_split_again, law_words_are_words, lemma_space, singly_spaced, split_words, str_eq,
    string_of_range, trim_end, trim_end_char, trim_start, trim_start_char, trimmed_end,
    trimmed_end_char, trimmed_start, trimmed_start_char, views, word_len, words,
};

verus! {

/// Whether `word` is one of the fillers. The list is short on purpose: "ah",
/// "oh", "so", "like" and "you know" carry meaning often enough.
pub open spec fn is_filler(word: Seq<char>) -> bool {
    ||| word == "um"@
    ||| word == "uh"@
    ||| word == "uhm"@
    ||| word == "erm"@
    ||| word == "hm"@
    ||| word == "hmm"@
    ||| word == "mhm"@
}

/// `s` without the characters before its first letter or numeral.
pub open spec fn trim_start_marks(s: Seq<char>) -> Seq<char>
    decreases s.len(),
{
    if s.len() > 0 && !alphanumeric(s[0]) {
        trim_start_marks(s.drop_first())
    } else {
        s
    }
}

/// `s` without the characters after its last letter or numeral.
pub open spec fn trim_end_marks(s: Seq<char>) -> Seq<char>
    decreases s.len(),
{
    if s.len() > 0 && !alphanumeric(s.last()) {
        trim_end_marks(s.drop_last())
    } else {
        s
    }
}

/// The comparable core of a token: stripped of surrounding punctuation, in
/// lower case.
pub open spec fn core_of(token: Seq<char>) -> Seq<char> {
    lowercase_text(trim_end_marks(trim_start_marks(token)))
}

/// The tokens that are not fillers.
pub open spec fn without_fillers(tokens: Seq<Seq<char>>) -> Seq<Seq<char>>
    decreases tokens.len(),
{
    if tokens.len() == 0 {
        Seq::empty()
    } else {
        let kept = without_fillers(tokens.drop_last());
        if is_filler(core_of(tokens.last())) {
            kept
        } else {
            kept.push(tokens.last())
        }
    }
}

/// Whether `token` repeats the token before it: the same word, with no
/// punctuation between the two.
pub open spec fn repeats(previous: Seq<char>, token: Seq<char>) -> bool {
    &&& previous.len() > 0
    &&& alphanumeric(previous.last())
    &&& core_of(previous) == core_of(token)
    &&& core_of(token).len() > 0
}

/// Whether `token` is the same word as the token before it, with no punctuation
/// between the two. Their core may be empty.
pub open spec fn same_word(previous: Seq<char>, token: Seq<char>) -> bool {
    &&& previous.len() > 0
    &&& alphanumeric(previous.last())
    &&& core_of(previous) == core_of(token)
}

/// The tokens without those that repeat the last one kept.
pub open spec fn without_repeats(tokens: Seq<Seq<char>>) -> Seq<Seq<char>>
    decreases tokens.len(),
{
    if tokens.len() == 0 {
        Seq::empty()
    } else {
        let kept = without_repeats(tokens.drop_last());
        if kept.len() > 0 && repeats(kept.last(), tokens.last()) {
            kept
        } else {
            kept.push(tokens.last())
        }
    }
}

/// The characters that end a sentence.
pub open spec fn ends_sentence(c: char) -> bool {
    c == '.' || c == '!' || c == '?'
}

/// Whether the character after `s` may begin a sentence: no letter has come
/// since the text or the last sentence end began.
pub open spec fn at_sentence_start(s: Seq<char>) -> bool
    decreases s.len(),
{
    if s.len() == 0 {
        true
    } else if at_sentence_start(s.drop_last()) {
        !alphabetic(s.last())
    } else {
        ends_sentence(s.last())
    }
}

/// `s` with the first letter of each sentence in upper case.
pub open spec fn capitalized(s: Seq<char>) -> Seq<char>
    decreases s.len(),
{
    if s.len() == 0 {
        Seq::empty()
    } else {
        let before = capitalized(s.drop_last());
        let c = s.last();
        if at_sentence_start(s.drop_last()) && alphabetic(c) {
            before + uppercase(c)
        } else {
            before.push(c)
        }
    }
}

/// `s` with a full stop after its last word, where it ends on one.
pub open spec fn with_full_stop(s: Seq<char>) -> Seq<char> {
    let t = trim_end(s);
    if t.len() > 0 && alphanumeric(t.last()) {
        t.push('.')
    } else {
        s
    }
}

/// `s` without dashes at its beginning and the white space around them.
pub open spec fn without_leading_dashes(s: Seq<char>) -> Seq<char> {
    let t = trim_start(s);
    if t.len() > 0 && t[0] == '-' {
        trim_start(trim_start_char(t, '-'))
    } else {
        s
    }
}

/// `s` without dashes at its end and the white space around them.
pub open spec fn without_trailing_dashes(s: Seq<char>) -> Seq<char> {
    let t = trim_end(s);
    if t.len() > 0 && t.last() == '-' {
        trim_end(trim_end_char(t, '-'))
    } else {
        s
    }
}

/// The words of `s` with one space between neighbours.
pub open spec fn normalized(s: Seq<char>) -> Seq<char> {
    join(words(s), seq![' '])
}

/// The text after the rules that `config` enables, in their order: dashes,
/// fillers, repeated words, whitespace, capitals, full stop.
pub open spec fn post_processed(s: Seq<char>, config: PostProcessConfig) -> Seq<char> {
    if !config.enabled {
        s
    } else {
        let a = if config.remove_leading_dashes { without_leading_dashes(s) } else { s };
        let b = if config.remove_trailing_dashes { without_trailing_dashes(a) } else { a };
        let c = if config.remove_fillers {
            join(without_fillers(words(b)), seq![' '])
        } else {
            b
        };
        let d = if config.collapse_repeated_words {
            join(without_repeats(words(c)), seq![' '])
        } else {
            c
        };
        let e = if config.normalize_whitespace { normalized(d) } else { d };
        let f = if config.capitalize_sentences { capitalized(e) } else { e };
        if config.ensure_terminal_punctuation {
            with_full_stop(f)
        } else {
            f
        }
    }
}

/// Post-processes a transcription by the rules that `config` enables.
pub fn post_process_text(text: String, config: &PostProcessConfig) -> (r: String)
    ensures
        r@ == post_processed(text@, *config),
{
    if !config.enabled {
        return text;
    }
    let mut processed = text;
    if config.remove_leading_dashes {
        processed = remove_leading_dashes(processed);
    }
    if config.remove_trailing_dashes {
        processed = remove_trailing_dashes(processed);
    }
    if config.remove_fillers {
        processed = remove_fillers(processed);
    }
    if config.collapse_repeated_words {
        processed = collapse_repeated_words(processed);
    }
    if config.normalize_whitespace {
        processed = normalize_whitespace(processed);
    }
    if config.capitalize_sentences {
        processed = capitalize_sentences(processed);
    }
    if config.ensure_terminal_punctuation {
        processed = ensure_terminal_punctuation(processed);
    }
    processed
}

fn filler(word: &str) -> (r: bool)
    ensures
        r == is_filler(word@),
{
    str_eq(word, "um") || str_eq(word, "uh") || str_eq(word, "uhm") || str_eq(word, "erm")
        || str_eq(word, "hm") || str_eq(word, "hmm") || str_eq(word, "mhm")
}

/// The comparable core of a token: "Um," and "um" both reduce to "um".
pub fn word_core(token: &str) -> (r: String)
    ensures
        r@ == core_of(token@),
        token@.len() > 0 && alphanumeric(token@.last()) ==> r@.len() > 0,
{
    let chars = chars_of(token);
    let mut from: usize = 0;
    assert(chars@.skip(0) == chars@);
    while from < chars.len() && !is_alphanumeric(chars[from])
        invariant
            from <= chars@.len(),
            trim_start_marks(chars@) == trim_start_marks(chars@.skip(from as int)),
        decreases chars@.len() - from,
    {
        assert(chars@.skip(from as int).drop_first() == chars@.skip(from + 1));
        from += 1;
    }
    let mut to: usize = chars.len();
    assert(chars@.subrange(from as int, to as int) == chars@.skip(from as int));
    while to > from && !is_alphanumeric(chars[to - 1])
        invariant
            from <= to <= chars@.len(),
            trim_end_marks(chars@.skip(from as int)) == trim_end_marks(
                chars@.subrange(from as int, to as int),
            ),
        decreases to,
    {
        assert(chars@.subrange(from as int, to as int).drop_last() == chars@.subrange(
            from as int,
            to - 1,
        ));
        to -= 1;
    }
    let core = string_of_range(&chars, from, to);
    proof {
        if token@.len() > 0 && alphanumeric(token@.last()) {
            lemma_marks_before_the_last(token@);
        }
    }
    to_lowercase_text(core.as_str())
}

proof fn lemma_marks_before_the_last(s: Seq<char>)
    requires
        s.len() > 0,
        alphanumeric(s.last()),
    ensures
        trim_start_marks(s).len() > 0,
        trim_start_marks(s).last() == s.last(),
        trim_end_marks(trim_start_marks(s)) == trim_start_marks(s),
    decreases s.len(),
{
    if !alphanumeric(s[0]) {
        lemma_marks_before_the_last(s.drop_first());
    }
}

/// Removes standalone filler words.
pub fn remove_fillers(text: String) -> (r: String)
    ensures
        r@ == join(without_fillers(words(text@)), seq![' ']),
{
    let tokens = split_words(text.as_str());
    let ghost all = views(tokens@);
    let mut kept: Vec<String> = Vec::new();
    let mut i: usize = 0;
    assert(views(kept@) =~= without_fillers(all.take(0)));
    while i < tokens.len()
        invariant
            all == views(tokens@),
            i <= tokens@.len(),
            views(kept@) == without_fillers(all.take(i as int)),
        decreases tokens@.len() - i,
    {
        let core = word_core(tokens[i].as_str());
        assert(all.take(i + 1).drop_last() == all.take(i as int));
        assert(all.take(i + 1).last() == tokens@[i as int]@);
        if !filler(core.as_str()) {
            let ghost before = views(kept@);
            let token = tokens[i].clone();
            kept.push(token);
            assert(views(kept@) =~= before.push(token@));
        }
        i += 1;
    }
    assert(all.take(i as int) == all);
    proof {
        lemma_space();
    }
    joined(&kept, " ")
}

fn is_repeat(previous: &str, token: &str) -> (r: bool)
    ensures
        r == repeats(previous@, token@),
        r == same_word(previous@, token@),
{
    let chars = chars_of(previous);
    if chars.len() == 0 || !is_alphanumeric(chars[chars.len() - 1]) {
        return false;
    }
    let core = word_core(token);
    str_eq(word_core(previous).as_str(), core.as_str()) && core.as_str().unicode_len() > 0
}

/// Collapses a word immediately repeated by a stutter or a chunk boundary.
pub fn collapse_repeated_words(text: String) -> (r: String)
    ensures
        r@ == join(without_repeats(words(text@)), seq![' ']),
        words(r@) == without_repeats(words(text@)),
        forall|i: int|
            0 < i < words(r@).len() ==> !same_word(words(r@)[i - 1], #[trigger] words(r@)[i]),
{
    let tokens = split_words(text.as_str());
    let ghost all = views(tokens@);
    let mut kept: Vec<String> = Vec::new();
    let mut i: usize = 0;
    assert(views(kept@) =~= without_repeats(all.take(0)));
    while i < tokens.len()
        invariant
            all == views(tokens@),
            i <= tokens@.len(),
            views(kept@) == without_repeats(all.take(i as int)),
            forall|j: int|
                0 < j < kept@.len() ==> !same_word(kept@[j - 1]@, (#[trigger] kept@[j])@),
        decreases tokens@.len() - i,
    {
        assert(all.take(i + 1).drop_last() == all.take(i as int));
        assert(all.take(i + 1).last() == tokens@[i as int]@);
        let n: usize = kept.len();
        assert(views(kept@).len() == n);
        if n == 0 || !is_repeat(kept[n - 1].as_str(), tokens[i].as_str()) {
            let ghost before = views(kept@);
            let token = tokens[i].clone();
            kept.push(token);
            assert(views(kept@) =~= before.push(token@));
        }
        i += 1;
    }
    assert(all.take(i as int) == all);
    proof {
        lemma_space();
        law_words_are_words(text@);
        lemma_without_repeats(all);
        law_joined_words_split_again(without_repeats(all));
        assert forall|i: int| 0 < i < views(kept@).len() implies !same_word(
            views(kept@)[i - 1],
            #[trigger] views(kept@)[i],
        ) by {
            assert(views(kept@)[i] == kept@[i]@);
            assert(views(kept@)[i - 1] == kept@[i - 1]@);
        }
    }
    joined(&kept, " ")
}

/// Capitalizes the first letter of the text and of each following sentence. No
/// character is lost by it.
pub fn capitalize_sentences(text: String) -> (r: String)
    ensures
        r@ == capitalized(text@),
        r@.len() >= text@.len(),
{
    let chars = chars_of(text.as_str());
    let mut r = String::new();
    let mut start_of_sentence = true;
    let mut i: usize = 0;
    assert(r@ =~= capitalized(chars@.take(0)));
    while i < chars.len()
        invariant
            i <= chars@.len(),
            r@ == capitalized(chars@.take(i as int)),
            r@.len() >= i,
            start_of_sentence == at_sentence_start(chars@.take(i as int)),
        decreases chars@.len() - i,
    {
        let c = chars[i];
        assert(chars@.take(i + 1).drop_last() == chars@.take(i as int));
        assert(chars@.take(i + 1).last() == c);
        if start_of_sentence && is_alphabetic(c) {
            r.append(to_uppercase(c).as_str());
            start_of_sentence = false;
        } else {
            r.push(c);
            if c == '.' || c == '!' || c == '?' {
                start_of_sentence = true;
            }
        }
        i += 1;
    }
    assert(chars@.take(i as int) == chars@);
    r
}

/// Appends a full stop when the text ends on a word rather than punctuation.
pub fn ensure_terminal_punctuation(text: String) -> (r: String)
    ensures
        r@ == with_full_stop(text@),
{
    let mut t = trimmed_end(text.as_str());
    let chars = chars_of(t.as_str());
    if chars.len() > 0 && is_alphanumeric(chars[chars.len() - 1]) {
        t.push('.');
        t
    } else {
        text
    }
}

/// Removes leading dashes and following whitespace.
pub fn remove_leading_dashes(text: String) -> (r: String)
    ensures
        r@ == without_leading_dashes(text@),
{
    let t = trimmed_start(text.as_str());
    let chars = chars_of(t.as_str());
    if chars.len() > 0 && chars[0] == '-' {
        trimmed_start(trimmed_start_char(t.as_str(), '-').as_str())
    } else {
        text
    }
}

/// Removes trailing dashes and preceding whitespace.
pub fn remove_trailing_dashes(text: String) -> (r: String)
    ensures
        r@ == without_trailing_dashes(text@),
{
    let t = trimmed_end(text.as_str());
    let chars = chars_of(t.as_str());
    if chars.len() > 0 && chars[chars.len() - 1] == '-' {
        trimmed_end(trimmed_end_char(t.as_str(), '-').as_str())
    } else {
        text
    }
}

/// Normalizes whitespace: one space between words, none at the ends.
pub fn normalize_whitespace(text: String) -> (r: String)
    ensures
        r@ == normalized(text@),
{
    let tokens = split_words(text.as_str());
    proof {
        lemma_space();
    }
    joined(&tokens, " ")
}

/// Disabled post-processing leaves a text as it is.
pub proof fn law_disabled_is_passthrough(s: Seq<char>, config: PostProcessConfig)
    requires
        !config.enabled,
    ensures
        post_processed(s, config) == s,
{
}

/// A normalized text has single spaces between its words and none around them;
/// its words are those of the text; normalizing it again changes nothing.
pub proof fn law_normalization_settles_spacing(s: Seq<char>)
    ensures
        singly_spaced(normalized(s)),
        words(normalized(s)) == words(s),
        normalized(normalized(s)) == normalized(s),
{
    law_words_are_words(s);
    law_joined_words_are_singly_spaced(words(s));
    law_joined_words_split_again(words(s));
}

/// Whether the upper-case form of each letter in `s` is a word: it is not
/// empty, and holds no white space. So it is of every ASCII letter.
pub open spec fn capitals_are_words(s: Seq<char>) -> bool {
    forall|i: int| 0 <= i < s.len() && alphabetic(#[trigger] s[i]) ==> is_word(uppercase(s[i]))
}

/// Whether the upper-case form of each letter in the texts is a word.
spec fn all_capitals_are_words(list: Seq<Seq<char>>) -> bool {
    forall|i: int| 0 <= i < list.len() ==> capitals_are_words(#[trigger] list[i])
}

proof fn lemma_capitals_in_parts(s: Seq<char>)
    requires
        capitals_are_words(s),
    ensures
        forall|i: int, j: int|
            0 <= i <= j <= s.len() ==> capitals_are_words(#[trigger] s.subrange(i, j)),
{
    assert forall|i: int, j: int| 0 <= i <= j <= s.len() implies capitals_are_words(
        #[trigger] s.subrange(i, j),
    ) by {
        let t = s.subrange(i, j);
        assert forall|k: int| 0 <= k < t.len() && alphabetic(#[trigger] t[k]) implies is_word(
            uppercase(t[k]),
        ) by {
            assert(t[k] == s[i + k]);
        }
    }
}

proof fn lemma_capitals_after_trim_start(s: Seq<char>)
    requires
        capitals_are_words(s),
    ensures
        capitals_are_words(trim_start(s)),
    decreases s.len(),
{
    if s.len() > 0 && white_space(s[0]) {
        lemma_capitals_in_parts(s);
        assert(s.drop_first() =~= s.subrange(1, s.len() as int));
        lemma_capitals_after_trim_start(s.drop_first());
    }
}

proof fn lemma_capitals_after_trim_end(s: Seq<char>)
    requires
        capitals_are_words(s),
    ensures
        capitals_are_words(trim_end(s)),
    decreases s.len(),
{
    if s.len() > 0 && white_space(s.last()) {
        lemma_capitals_in_parts(s);
        assert(s.drop_last() =~= s.subrange(0, s.len() - 1));
        lemma_capitals_after_trim_end(s.drop_last());
    }
}

proof fn lemma_capitals_after_trim_char(s: Seq<char>, c: char)
    requires
        capitals_are_words(s),
    ensures
        capitals_are_words(trim_start_char(s, c)),
        capitals_are_words(trim_end_char(s, c)),
    decreases s.len(),
{
    if s.len() > 0 {
        lemma_capitals_in_parts(s);
        assert(s.drop_first() =~= s.subrange(1, s.len() as int));
        assert(s.drop_last() =~= s.subrange(0, s.len() - 1));
        lemma_capitals_after_trim_char(s.drop_first(), c);
        lemma_capitals_after_trim_char(s.drop_last(), c);
    }
}

proof fn lemma_capitals_in_words(s: Seq<char>)
    requires
        capitals_are_words(s),
    ensures
        all_capitals_are_words(words(s)),
    decreases s.len(),
{
    if s.len() > 0 {
        lemma_capitals_in_parts(s);
        let n = word_len(s) as int;
        if white_space(s[0]) {
            assert(s.drop_first() =~= s.subrange(1, s.len() as int));
            lemma_capitals_in_words(s.drop_first());
        } else if n < s.len() {
            assert(s.skip(n) =~= s.subrange(n, s.len() as int));
            assert(s.take(n) =~= s.subrange(0, n));
            lemma_capitals_in_words(s.skip(n));
            let rest = words(s.skip(n));
            assert forall|i: int| 0 <= i < words(s).len() implies capitals_are_words(
                #[trigger] words(s)[i],
            ) by {
                if i > 0 {
                    assert(words(s)[i] == rest[i - 1]);
                }
            }
        }
    }
}

proof fn lemma_capitals_kept(tokens: Seq<Seq<char>>)
    requires
        all_capitals_are_words(tokens),
    ensures
        all_capitals_are_words(without_fillers(tokens)),
        all_capitals_are_words(without_repeats(tokens)),
        capitals_are_words(join(tokens, seq![' '])),
    decreases tokens.len(),
{
    if tokens.len() > 0 {
        let head = tokens.drop_last();
        let last = tokens.last();
        assert forall|i: int| 0 <= i < head.len() implies capitals_are_words(
            #[trigger] head[i],
        ) by {
            assert(head[i] == tokens[i]);
        }
        assert(capitals_are_words(tokens[tokens.len() - 1]));
        lemma_capitals_kept(head);
        if tokens.len() > 1 {
            let front = join(head, seq![' ']);
            let s = join(tokens, seq![' ']);
            assert forall|i: int| 0 <= i < s.len() && alphabetic(#[trigger] s[i]) implies is_word(
                uppercase(s[i]),
            ) by {
                if i < front.len() {
                    assert(s[i] == front[i]);
                } else if i > front.len() {
                    assert(s[i] == last[i - front.len() - 1]);
                }
            }
        }
    }
}

/// Whether white space occurs in `s` only as single spaces after other
/// characters.
spec fn spaces_follow(s: Seq<char>) -> bool {
    forall|i: int|
        0 <= i < s.len() && white_space(#[trigger] s[i]) ==> s[i] == ' ' && 0 < i && !white_space(
            s[i - 1],
        )
}

proof fn lemma_capitalized_spaces(s: Seq<char>)
    requires
        spaces_follow(s),
        capitals_are_words(s),
    ensures
        spaces_follow(capitalized(s)),
        capitalized(s).len() == 0 <==> s.len() == 0,
        s.len() > 0 ==> (white_space(capitalized(s).last()) <==> white_space(s.last())),
    decreases s.len(),
{
    if s.len() > 0 {
        let head = s.drop_last();
        let c = s.last();
        assert forall|i: int| 0 <= i < head.len() && white_space(
            #[trigger] head[i],
        ) implies head[i] == ' ' && 0 < i && !white_space(head[i - 1]) by {
            assert(head[i] == s[i]);
            assert(head[i - 1] == s[i - 1]);
        }
        lemma_capitals_in_parts(s);
        assert(head =~= s.subrange(0, s.len() - 1));
        lemma_capitalized_spaces(head);
        let before = capitalized(head);
        let all = capitalized(s);
        assert(c == s[s.len() - 1]);
        assert(alphabetic(c) ==> is_word(uppercase(c)));
        assert(s.len() > 1 ==> head.last() == s[s.len() - 2]);
        assert forall|i: int| 0 <= i < all.len() && white_space(#[trigger] all[i]) implies all[i]
            == ' ' && 0 < i && !white_space(all[i - 1]) by {
            if i < before.len() {
                assert(all[i] == before[i]);
                assert(all[i - 1] == before[i - 1]);
            } else if at_sentence_start(head) && alphabetic(c) {
                assert(all[i] == uppercase(c)[i - before.len()]);
            } else {
                assert(all[i - 1] == before.last());
            }
        }
        if at_sentence_start(head) && alphabetic(c) {
            assert(all.last() == uppercase(c)[uppercase(c).len() - 1]);
            assert(white_space(c) ==> c == ' ');
        }
    }
}

/// Whatever was removed, capitalized or ended with a full stop, normalization
/// leaves no double spaces behind: of every text where sentences are not
/// capitalized, and of every text whose letters have words as capitals, such
/// as one in ASCII, where they are.
pub proof fn law_removals_leave_no_double_spaces(s: Seq<char>, config: PostProcessConfig)
    requires
        config.enabled,
        config.normalize_whitespace,
    ensures
        !config.capitalize_sentences ==> singly_spaced(post_processed(s, config)),
        capitals_are_words(s) ==> singly_spaced(post_processed(s, config)),
        all_ascii(s) ==> capitals_are_words(s),
{
    let a = if config.remove_leading_dashes { without_leading_dashes(s) } else { s };
    let b = if config.remove_trailing_dashes { without_trailing_dashes(a) } else { a };
    let c = if config.remove_fillers { join(without_fillers(words(b)), seq![' ']) } else { b };
    let d = if config.collapse_repeated_words {
        join(without_repeats(words(c)), seq![' '])
    } else {
        c
    };
    let e = normalized(d);
    let f = if config.capitalize_sentences { capitalized(e) } else { e };
    law_normalization_settles_spacing(d);
    if capitals_are_words(s) {
        lemma_capitals_after_trim_start(s);
        lemma_capitals_after_trim_char(trim_start(s), '-');
        lemma_capitals_after_trim_start(trim_start_char(trim_start(s), '-'));
        lemma_capitals_after_trim_end(a);
        lemma_capitals_after_trim_char(trim_end(a), '-');
        lemma_capitals_after_trim_end(trim_end_char(trim_end(a), '-'));
        lemma_capitals_in_words(b);
        lemma_capitals_kept(words(b));
        lemma_capitals_kept(without_fillers(words(b)));
        lemma_capitals_in_words(c);
        lemma_capitals_kept(words(c));
        lemma_capitals_kept(without_repeats(words(c)));
        lemma_capitals_in_words(d);
        lemma_capitals_kept(words(d));
        assert(capitals_are_words(e));
        lemma_capitalized_spaces(e);
    }
    if !config.capitalize_sentences || capitals_are_words(s) {
        assert(spaces_follow(f));
        assert(f.len() > 0 ==> !white_space(f.last()));
        assert(trim_end(f) == f);
        let g = f.push('.');
        assert forall|i: int| 0 <= i < f.len() && white_space(#[trigger] f[i]) implies i < f.len()
            - 1 && !white_space(f[i + 1]) by {
            if i + 1 < f.len() && white_space(f[i + 1]) {
                assert(!white_space(f[i]));
            }
        }
        assert forall|i: int| 0 <= i < g.len() && white_space(#[trigger] g[i]) implies g[i] == ' '
            && 0 < i < g.len() - 1 && !white_space(g[i - 1]) && !white_space(g[i + 1]) by {
            assert(g[i] == f[i]);
            assert(g[i - 1] == f[i - 1]);
            assert(g[i + 1] == f[i + 1]);
        }
    }
}

proof fn lemma_without_fillers(tokens: Seq<Seq<char>>)
    requires
        all_words(tokens),
    ensures
        all_words(without_fillers(tokens)),
        forall|i: int|
            0 <= i < without_fillers(tokens).len() ==> !is_filler(
                core_of(#[trigger] without_fillers(tokens)[i]),
            ),
    decreases tokens.len(),
{
    if tokens.len() > 0 {
        assert(all_words(tokens.drop_last()));
        assert(is_word(tokens[tokens.len() - 1]));
        lemma_without_fillers(tokens.drop_last());
    }
}

/// After the removal of fillers no word of the text is one.
pub proof fn law_no_filler_remains(s: Seq<char>)
    ensures
        forall|i: int|
            0 <= i < words(join(without_fillers(words(s)), seq![' '])).len() ==> !is_filler(
                core_of(#[trigger] words(join(without_fillers(words(s)), seq![' ']))[i]),
            ),
{
    law_words_are_words(s);
    lemma_without_fillers(words(s));
    law_joined_words_split_again(without_fillers(words(s)));
}

proof fn lemma_without_repeats(tokens: Seq<Seq<char>>)
    requires
        all_words(tokens),
    ensures
        all_words(without_repeats(tokens)),
        forall|i: int|
            0 < i < without_repeats(tokens).len() ==> !repeats(
                without_repeats(tokens)[i - 1],
                #[trigger] without_repeats(tokens)[i],
            ),
    decreases tokens.len(),
{
    if tokens.len() > 0 {
        assert(all_words(tokens.drop_last()));
        assert(is_word(tokens[tokens.len() - 1]));
        lemma_without_repeats(tokens.drop_last());
        let kept = without_repeats(tokens.drop_last());
        let now = without_repeats(tokens);
        assert forall|i: int| 0 < i < now.len() implies !repeats(now[i - 1], #[trigger] now[i]) by {
            if i < kept.len() {
                assert(now[i] == kept[i]);
                assert(now[i - 1] == kept[i - 1]);
            } else {
                assert(now[i - 1] == kept.last());
            }
        }
    }
}

/// After repeated words were collapsed no word of the text repeats the one
/// before it.
pub proof fn law_no_repeat_remains(s: Seq<char>)
    ensures
        ({
            let left = words(join(without_repeats(words(s)), seq![' ']));
            forall|i: int| 0 < i < left.len() ==> !repeats(left[i - 1], #[trigger] left[i])
        }),
{
    law_words_are_words(s);
    lemma_without_repeats(words(s));
    law_joined_words_split_again(without_repeats(words(s)));
}

proof fn lemma_nothing_repeats(tokens: Seq<Seq<char>>)
    requires
        forall|i: int| 0 < i < tokens.len() ==> !repeats(tokens[i - 1], #[trigger] tokens[i]),
    ensures
        without_repeats(tokens) == tokens,
    decreases tokens.len(),
{
    if tokens.len() > 0 {
        let head = tokens.drop_last();
        assert forall|i: int| 0 < i < head.len() implies !repeats(
            head[i - 1],
            #[trigger] head[i],
        ) by {
            assert(head[i] == tokens[i]);
        }
        lemma_nothing_repeats(head);
        assert(tokens =~= head.push(tokens.last()));
        assert(head.len() > 0 ==> !repeats(head.last(), tokens[tokens.len() - 1]));
    }
}

/// Collapsing repeated words again changes nothing.
pub proof fn law_collapsing_settles(s: Seq<char>)
    ensures
        ({
            let once = join(without_repeats(words(s)), seq![' ']);
            join(without_repeats(words(once)), seq![' ']) == once
        }),
{
    law_words_are_words(s);
    lemma_without_repeats(words(s));
    lemma_nothing_repeats(without_repeats(words(s)));
    law_joined_words_split_again(without_repeats(words(s)));
}

/// The positions of the tokens that stay when repeated words are collapsed.
pub open spec fn kept_positions(tokens: Seq<Seq<char>>) -> Seq<int>
    decreases tokens.len(),
{
    if tokens.len() == 0 {
        Seq::empty()
    } else {
        let kept = kept_positions(tokens.drop_last());
        if kept.len() > 0 && repeats(tokens[kept.last()], tokens.last()) {
            kept
        } else {
            kept.push(tokens.len() - 1)
        }
    }
}

/// Whether the token at `j` falls to the kept token at `kept[i]`: it is that
/// token, or stands after it and before the next one kept, and repeats it.
pub open spec fn falls_to(tokens: Seq<Seq<char>>, kept: Seq<int>, i: int, j: int) -> bool {
    &&& 0 <= i < kept.len()
    &&& kept[i] <= j
    &&& i + 1 < kept.len() ==> j < kept[i + 1]
    &&& kept[i] == j || repeats(tokens[kept[i]], tokens[j])
}

/// Whether the token at `j` falls to a kept token.
pub open spec fn has_keeper(tokens: Seq<Seq<char>>, kept: Seq<int>, j: int) -> bool {
    exists|i: int| #[trigger] falls_to(tokens, kept, i, j)
}

proof fn lemma_kept_positions(tokens: Seq<Seq<char>>)
    ensures
        without_repeats(tokens) == kept_positions(tokens).map_values(|k: int| tokens[k]),
        forall|i: int|
            0 <= i < kept_positions(tokens).len() ==> 0 <= #[trigger] kept_positions(tokens)[i]
                < tokens.len(),
        forall|i: int, j: int|
            0 <= i < j < kept_positions(tokens).len() ==> kept_positions(tokens)[i]
                < kept_positions(tokens)[j],
        tokens.len() > 0 ==> kept_positions(tokens).len() > 0 && kept_positions(tokens)[0] == 0,
    decreases tokens.len(),
{
    let kept = kept_positions(tokens);
    if tokens.len() > 0 {
        let head = tokens.drop_last();
        lemma_kept_positions(head);
        let before = kept_positions(head);
        if before.len() > 0 {
            assert(0 <= before[before.len() - 1] < head.len());
            assert(tokens[before.last()] == head[before.last()]);
            assert(without_repeats(head).last() == head[before.last()]);
        }
        assert(without_repeats(tokens) =~= kept.map_values(|k: int| tokens[k]));
    } else {
        assert(without_repeats(tokens) =~= kept.map_values(|k: int| tokens[k]));
    }
}

proof fn lemma_all_have_keepers(tokens: Seq<Seq<char>>, j: int)
    requires
        0 <= j < tokens.len(),
    ensures
        has_keeper(tokens, kept_positions(tokens), j),
    decreases tokens.len(),
{
    let head = tokens.drop_last();
    let before = kept_positions(head);
    let kept = kept_positions(tokens);
    lemma_kept_positions(head);
    if j < head.len() {
        lemma_all_have_keepers(head, j);
        let i = choose|i: int| #[trigger] falls_to(head, before, i, j);
        assert(before[i] < head.len());
        assert(kept[i] == before[i]);
        assert(head[j] == tokens[j]);
        assert(head[before[i]] == tokens[before[i]]);
        if i + 1 < before.len() {
            assert(kept[i + 1] == before[i + 1]);
        }
        assert(falls_to(tokens, kept, i, j));
    } else {
        if before.len() > 0 {
            assert(before[before.len() - 1] < head.len());
        }
        assert(falls_to(tokens, kept, kept.len() - 1, j));
    }
}

/// Collapsing repeated words keeps tokens as they are and in their order, the
/// first among them; each token that goes repeats the kept one before it, and
/// so has its core.
pub proof fn law_collapsing_drops_repeats_alone(tokens: Seq<Seq<char>>)
    ensures
        ({
            let kept = kept_positions(tokens);
            &&& without_repeats(tokens) == kept.map_values(|k: int| tokens[k])
            &&& forall|i: int| 0 <= i < kept.len() ==> 0 <= #[trigger] kept[i] < tokens.len()
            &&& forall|i: int, j: int| 0 <= i < j < kept.len() ==> kept[i] < kept[j]
            &&& tokens.len() > 0 ==> kept.len() > 0 && kept[0] == 0
            &&& forall|j: int| 0 <= j < tokens.len() ==> #[trigger] has_keeper(tokens, kept, j)
            &&& forall|i: int, j: int| #[trigger]
                falls_to(tokens, kept, i, j) ==> core_of(tokens[j]) == core_of(tokens[kept[i]])
        }),
{
    lemma_kept_positions(tokens);
    assert forall|j: int| 0 <= j < tokens.len() implies #[trigger] has_keeper(
        tokens,
        kept_positions(tokens),
        j,
    ) by {
        lemma_all_have_keepers(tokens, j);
    }
}

/// Collapsing repeated words, as it is called: the words of the result are those
/// of the text at the kept positions, in order and from the first on; each word
/// that goes has the core of the kept one before it, which ends on a letter or
/// a numeral; no word of the result is
/// the same as the one before it, with no punctuation between; and collapsing the
/// result changes nothing.
pub proof fn law_collapse_repeated_words(text: String, r: String, again: String)
    requires
        call_ensures(collapse_repeated_words, (text,), r),
        call_ensures(collapse_repeated_words, (r,), again),
    ensures
        ({
            let tokens = words(text@);
            let left = words(r@);
            let kept = kept_positions(tokens);
            &&& again@ == r@
            &&& left == kept.map_values(|k: int| tokens[k])
            &&& forall|i: int| 0 <= i < kept.len() ==> 0 <= #[trigger] kept[i] < tokens.len()
            &&& forall|i: int, j: int| 0 <= i < j < kept.len() ==> kept[i] < kept[j]
            &&& tokens.len() > 0 ==> left.len() > 0 && left[0] == tokens[0]
            &&& forall|j: int| 0 <= j < tokens.len() ==> #[trigger] has_keeper(tokens, kept, j)
            &&& forall|i: int, j: int| #[trigger]
                falls_to(tokens, kept, i, j) ==> core_of(tokens[j]) == core_of(left[i])
            &&& forall|i: int, j: int| #[trigger]
                falls_to(tokens, kept, i, j) && kept[i] != j ==> left[i].len() > 0 && alphanumeric(
                    left[i].last(),
                )
            &&& forall|i: int|
                0 < i < left.len() && left[i - 1].len() > 0 && alphanumeric(left[i - 1].last())
                    ==> core_of(left[i - 1]) != core_of(#[trigger] left[i])
        }),
{
    law_collapsing_settles(text@);
    law_collapsing_drops_repeats_alone(words(text@));
}

/// A full stop is added once.
pub proof fn law_full_stop_is_added_once(s: Seq<char>)
    ensures
        with_full_stop(with_full_stop(s)) == with_full_stop(s),
{
    let t = trim_end(s);
    if t.len() > 0 && alphanumeric(t.last()) {
        assert(t.push('.').last() == '.');
        assert(trim_end(t.push('.')) == t.push('.'));
    }
}

/// Whether a word is a filler once it is stripped of punctuation and in lower
/// case.
pub open spec fn sounds_like_a_filler(w: Seq<char>) -> bool {
    let core = core_of(w);
    core == "um"@ || core == "uh"@ || core == "uhm"@ || core == "erm"@ || core == "hm"@ || core
        == "hmm"@ || core == "mhm"@
}

proof fn lemma_fillers_filtered(tokens: Seq<Seq<char>>)
    ensures
        without_fillers(tokens) == tokens.filter(|w: Seq<char>| !sounds_like_a_filler(w)),
    decreases tokens.len(),
{
    reveal(Seq::filter);
    if tokens.len() > 0 {
        lemma_fillers_filtered(tokens.drop_last());
    }
}

/// Removing fillers keeps every other word, in order: the words of the result
/// are those of the text whose core is none of the seven fillers.
pub proof fn law_fillers_alone_are_removed(text: String, r: String)
    requires
        call_ensures(remove_fillers, (text,), r),
    ensures
        words(r@) == words(text@).filter(|w: Seq<char>| !sounds_like_a_filler(w)),
        (forall|i: int|
            0 <= i < words(text@).len() ==> !sounds_like_a_filler(#[trigger] words(text@)[i]))
            ==> words(r@) == words(text@),
{
    let tokens = words(text@);
    law_words_are_words(text@);
    lemma_without_fillers(tokens);
    law_joined_words_split_again(without_fillers(tokens));
    lemma_fillers_filtered(tokens);
    if forall|i: int| 0 <= i < tokens.len() ==> !sounds_like_a_filler(#[trigger] tokens[i]) {
        lemma_filter_keeps_all(tokens, |w: Seq<char>| !sounds_like_a_filler(w));
    }
}

proof fn lemma_filter_keeps_all(tokens: Seq<Seq<char>>, keep: spec_fn(Seq<char>) -> bool)
    requires
        forall|i: int| 0 <= i < tokens.len() ==> keep(#[trigger] tokens[i]),
    ensures
        tokens.filter(keep) == tokens,
    decreases tokens.len(),
{
    reveal(Seq::filter);
    if tokens.len() > 0 {
        let head = tokens.drop_last();
        assert forall|i: int| 0 <= i < head.len() implies keep(#[trigger] head[i]) by {
            assert(head[i] == tokens[i]);
        }
        lemma_filter_keeps_all(head, keep);
        assert(keep(tokens[tokens.len() - 1]));
        assert(tokens =~= head.push(tokens.last()));
    } else {
        assert(tokens.filter(keep) =~= tokens);
    }
}

/// Whether `s` holds neither letters nor numerals.
pub open spec fn all_marks(s: Seq<char>) -> bool {
    forall|i: int| 0 <= i < s.len() ==> !alphanumeric(#[trigger] s[i])
}

/// Whether `s` holds white space alone.
pub open spec fn all_white(s: Seq<char>) -> bool {
    forall|i: int| 0 <= i < s.len() ==> white_space(#[trigger] s[i])
}

/// Whether `s` holds dashes alone.
pub open spec fn all_dashes(s: Seq<char>) -> bool {
    forall|i: int| 0 <= i < s.len() ==> #[trigger] s[i] == '-'
}

proof fn lemma_core_of_parts(a: Seq<char>, core: Seq<char>, b: Seq<char>)
    requires
        all_marks(a),
        all_marks(b),
        core.len() > 0,
        alphanumeric(core[0]),
        alphanumeric(core.last()),
    ensures
        trim_end_marks(trim_start_marks(a + core + b)) == core,
    decreases a.len() + b.len(),
{
    let s = a + core + b;
    if a.len() > 0 {
        assert(!alphanumeric(a[0]));
        assert(s[0] == a[0]);
        assert forall|i: int| 0 <= i < a.drop_first().len() implies !alphanumeric(
            #[trigger] a.drop_first()[i],
        ) by {
            assert(a.drop_first()[i] == a[i + 1]);
        }
        assert(s.drop_first() =~= a.drop_first() + core + b);
        lemma_core_of_parts(a.drop_first(), core, b);
    } else if b.len() > 0 {
        assert(s[0] == core[0]);
        assert(s.last() == b[b.len() - 1]);
        let c = b.drop_last();
        assert forall|i: int| 0 <= i < c.len() implies !alphanumeric(#[trigger] c[i]) by {
            assert(c[i] == b[i]);
        }
        assert(s.drop_last() =~= a + core + c);
        assert((a + core + c)[0] == core[0]);
        lemma_core_of_parts(a, core, c);
    } else {
        assert(s =~= core);
    }
}

/// The core of a token is what stands from its first letter or numeral to its
/// last, in lower case, whatever marks stand around.
pub proof fn law_core_is_what_marks_enclose(a: Seq<char>, core: Seq<char>, b: Seq<char>)
    requires
        all_marks(a),
        all_marks(b),
        core.len() > 0,
        alphanumeric(core[0]),
        alphanumeric(core.last()),
    ensures
        core_of(a + core + b) == lowercase_text(core),
{
    lemma_core_of_parts(a, core, b);
}

proof fn lemma_trim_start_of_parts(a: Seq<char>, t: Seq<char>)
    requires
        all_white(a),
        t.len() > 0 ==> !white_space(t[0]),
    ensures
        trim_start(a + t) == t,
    decreases a.len(),
{
    let s = a + t;
    if a.len() > 0 {
        assert(white_space(a[0]));
        let c = a.drop_first();
        assert forall|i: int| 0 <= i < c.len() implies white_space(#[trigger] c[i]) by {
            assert(c[i] == a[i + 1]);
        }
        assert(s.drop_first() =~= c + t);
        lemma_trim_start_of_parts(c, t);
    } else {
        assert(s =~= t);
    }
}

proof fn lemma_trim_end_of_parts(t: Seq<char>, a: Seq<char>)
    requires
        all_white(a),
        t.len() > 0 ==> !white_space(t.last()),
    ensures
        trim_end(t + a) == t,
    decreases a.len(),
{
    let s = t + a;
    if a.len() > 0 {
        assert(white_space(a[a.len() - 1]));
        let c = a.drop_last();
        assert forall|i: int| 0 <= i < c.len() implies white_space(#[trigger] c[i]) by {
            assert(c[i] == a[i]);
        }
        assert(s.drop_last() =~= t + c);
        lemma_trim_end_of_parts(t, c);
    } else {
        assert(s =~= t);
    }
}

proof fn lemma_trim_dashes(d: Seq<char>, t: Seq<char>)
    requires
        all_dashes(d),
    ensures
        t.len() > 0 && t[0] == '-' || trim_start_char(d + t, '-') == t,
        t.len() > 0 && t.last() == '-' || trim_end_char(t + d, '-') == t,
    decreases d.len(),
{
    if d.len() > 0 {
        assert(d[0] == '-' && d[d.len() - 1] == '-');
        let c = d.drop_first();
        assert forall|i: int| 0 <= i < c.len() implies #[trigger] c[i] == '-' by {
            assert(c[i] == d[i + 1]);
        }
        assert((d + t).drop_first() =~= c + t);
        assert(d.drop_last() =~= c);
        assert((t + d).drop_last() =~= t + d.drop_last());
        lemma_trim_dashes(c, t);
    } else {
        assert(d + t =~= t);
        assert(t + d =~= t);
    }
}

/// Leading dashes go with the white space around them, and nothing else does:
/// of white space, dashes, white space and a text, the text is left.
pub proof fn law_leading_dashes_alone_go(
    before: Seq<char>,
    dashes: Seq<char>,
    after: Seq<char>,
    text: Seq<char>,
)
    requires
        all_white(before),
        all_dashes(dashes),
        all_white(after),
        text.len() > 0 ==> !white_space(text[0]),
        after.len() == 0 && text.len() > 0 ==> text[0] != '-',
    ensures
        dashes.len() > 0 ==> without_leading_dashes(before + (dashes + (after + text))) == text,
        dashes.len() == 0 && (text.len() == 0 || text[0] != '-') ==> without_leading_dashes(
            before + (after + text),
        ) == before + (after + text),
{
    let rest = after + text;
    if dashes.len() > 0 {
        let t = dashes + rest;
        assert(t[0] == '-');
        lemma_trim_start_of_parts(before, t);
        assert(rest.len() > 0 ==> rest[0] != '-');
        lemma_trim_dashes(dashes, rest);
        lemma_trim_start_of_parts(after, text);
    } else if text.len() == 0 || text[0] != '-' {
        assert(all_white(before + after)) by {
            assert forall|i: int| 0 <= i < (before + after).len() implies white_space(
                #[trigger] (before + after)[i],
            ) by {
                if i >= before.len() {
                    assert((before + after)[i] == after[i - before.len()]);
                }
            }
        }
        assert(before + rest =~= (before + after) + text);
        lemma_trim_start_of_parts(before + after, text);
    }
}

/// Trailing dashes go with the white space around them, and nothing else does.
pub proof fn law_trailing_dashes_alone_go(
    text: Seq<char>,
    before: Seq<char>,
    dashes: Seq<char>,
    after: Seq<char>,
)
    requires
        all_white(before),
        all_dashes(dashes),
        all_white(after),
        text.len() > 0 ==> !white_space(text.last()),
        before.len() == 0 && text.len() > 0 ==> text.last() != '-',
    ensures
        dashes.len() > 0 ==> without_trailing_dashes(((text + before) + dashes) + after) == text,
        dashes.len() == 0 && (text.len() == 0 || text.last() != '-') ==> without_trailing_dashes(
            (text + before) + after,
        ) == (text + before) + after,
{
    let head = text + before;
    if dashes.len() > 0 {
        let t = head + dashes;
        assert(t.last() == dashes[dashes.len() - 1]);
        lemma_trim_end_of_parts(t, after);
        assert(head.len() > 0 ==> head.last() != '-') by {
            if before.len() > 0 {
                assert(white_space(before[before.len() - 1]));
                assert(head.last() == before[before.len() - 1]);
            } else {
                assert(head =~= text);
            }
        }
        lemma_trim_dashes(dashes, head);
        lemma_trim_end_of_parts(text, before);
    } else if text.len() == 0 || text.last() != '-' {
        assert(all_white(before + after)) by {
            assert forall|i: int| 0 <= i < (before + after).len() implies white_space(
                #[trigger] (before + after)[i],
            ) by {
                if i >= before.len() {
                    assert((before + after)[i] == after[i - before.len()]);
                }
            }
        }
        assert(head + after =~= text + (before + after));
        lemma_trim_end_of_parts(text, before + after);
    }
}

/// A text that ends on a letter or a numeral, white space after it aside, gets a
/// full stop there; any other is left as it is.
pub proof fn law_full_stop_follows_the_last_word(text: Seq<char>, after: Seq<char>)
    requires
        all_white(after),
        text.len() > 0 ==> !white_space(text.last()),
    ensures
        with_full_stop(text + after) == (if text.len() > 0 && alphanumeric(text.last()) {
            text + seq!['.']
        } else {
            text + after
        }),
{
    lemma_trim_end_of_parts(text, after);
    assert(text.push('.') =~= text + seq!['.']);
}

/// Whether the character at `i` is the first letter of a sentence: no letter has
/// come since the text began or a full stop, exclamation mark or question mark.
pub open spec fn begins_sentence(s: Seq<char>, i: int) -> bool {
    &&& alphabetic(s[i])
    &&& forall|j: int|
        0 <= j < i && alphabetic(#[trigger] s[j]) ==> exists|k: int|
            j < k < i && (#[trigger] s[k] == '.' || s[k] == '!' || s[k] == '?')
}

proof fn lemma_at_sentence_start(s: Seq<char>)
    ensures
        at_sentence_start(s) <==> forall|j: int|
            0 <= j < s.len() && alphabetic(#[trigger] s[j]) ==> exists|k: int|
                j < k < s.len() && (#[trigger] s[k] == '.' || s[k] == '!' || s[k] == '?'),
    decreases s.len(),
{
    if s.len() > 0 {
        let head = s.drop_last();
        let n = s.len() - 1;
        lemma_at_sentence_start(head);
        assert forall|j: int| 0 <= j < n implies head[j] == s[j] by {}
        if ends_sentence(s[n]) {
            assert(!alphabetic(s[n]));
        } else if at_sentence_start(head) && !alphabetic(s[n]) {
            assert forall|j: int| 0 <= j < s.len() && alphabetic(#[trigger] s[j]) implies exists|
                k: int,
            |
                j < k < s.len() && (#[trigger] s[k] == '.' || s[k] == '!' || s[k] == '?') by {
                assert(alphabetic(head[j]));
                let k = choose|k: int|
                    j < k < n && (#[trigger] head[k] == '.' || head[k] == '!' || head[k] == '?');
                assert(s[k] == head[k]);
            }
        } else if alphabetic(s[n]) {
            assert(!exists|k: int|
                n < k < s.len() && (#[trigger] s[k] == '.' || s[k] == '!' || s[k] == '?'));
        } else {
            let j = choose|j: int|
                0 <= j < n && alphabetic(#[trigger] head[j]) && !exists|k: int|
                    j < k < n && (#[trigger] head[k] == '.' || head[k] == '!' || head[k] == '?');
            assert(alphabetic(s[j]));
            if exists|k: int|
                j < k < s.len() && (#[trigger] s[k] == '.' || s[k] == '!' || s[k] == '?') {
                let k = choose|k: int|
                    j < k < s.len() && (#[trigger] s[k] == '.' || s[k] == '!' || s[k] == '?');
                assert(head[k] == s[k]);
            }
        }
    }
}

/// What becomes of the character at `i` when sentences are capitalized.
pub open spec fn capitalized_at(s: Seq<char>, i: int) -> Seq<char> {
    if begins_sentence(s, i) {
        uppercase(s[i])
    } else {
        seq![s[i]]
    }
}

/// Capitalizing puts the first letter of each sentence in upper case, and
/// leaves every other character as it is, in its place.
pub proof fn law_first_letters_alone_are_capitalized(s: Seq<char>)
    ensures
        capitalized(s) == concat_all(Seq::new(s.len(), |i: int| capitalized_at(s, i))),
    decreases s.len(),
{
    let all = Seq::new(s.len(), |i: int| capitalized_at(s, i));
    if s.len() > 0 {
        let head = s.drop_last();
        let n = s.len() - 1;
        let before = Seq::new(head.len(), |i: int| capitalized_at(head, i));
        law_first_letters_alone_are_capitalized(head);
        assert forall|i: int| 0 <= i < n implies #[trigger] before[i] == all[i] by {
            assert(head[i] == s[i]);
            assert forall|j: int| 0 <= j < n implies head[j] == s[j] by {}
            if begins_sentence(head, i) {
                assert forall|j: int| 0 <= j < i && alphabetic(#[trigger] s[j]) implies exists|
                    k: int,
                |
                    j < k < i && (#[trigger] s[k] == '.' || s[k] == '!' || s[k] == '?') by {
                    assert(alphabetic(head[j]));
                    let k = choose|k: int|
                        j < k < i && (#[trigger] head[k] == '.' || head[k] == '!' || head[k]
                            == '?');
                    assert(s[k] == head[k]);
                }
            }
            if begins_sentence(s, i) {
                assert forall|j: int| 0 <= j < i && alphabetic(#[trigger] head[j]) implies exists|
                    k: int,
                |
                    j < k < i && (#[trigger] head[k] == '.' || head[k] == '!' || head[k]
                        == '?') by {
                    assert(alphabetic(s[j]));
                    let k = choose|k: int|
                        j < k < i && (#[trigger] s[k] == '.' || s[k] == '!' || s[k] == '?');
                    assert(head[k] == s[k]);
                }
            }
        }
        assert(all.drop_last() =~= before);
        lemma_at_sentence_start(head);
        assert(begins_sentence(s, n) <==> at_sentence_start(head) && alphabetic(s[n])) by {
            assert forall|j: int| 0 <= j < n implies head[j] == s[j] by {}
            if at_sentence_start(head) && alphabetic(s[n]) {
                assert forall|j: int| 0 <= j < n && alphabetic(#[trigger] s[j]) implies exists|
                    k: int,
                |
                    j < k < n && (#[trigger] s[k] == '.' || s[k] == '!' || s[k] == '?') by {
                    assert(alphabetic(head[j]));
                    let k = choose|k: int|
                        j < k < n && (#[trigger] head[k] == '.' || head[k] == '!' || head[k]
                            == '?');
                    assert(s[k] == head[k]);
                }
            }
            if begins_sentence(s, n) {
                assert forall|j: int| 0 <= j < n && alphabetic(#[trigger] head[j]) implies exists|
                    k: int,
                |
                    j < k < n && (#[trigger] head[k] == '.' || head[k] == '!' || head[k]
                        == '?') by {
                    assert(alphabetic(s[j]));
                    let k = choose|k: int|
                        j < k < n && (#[trigger] s[k] == '.' || s[k] == '!' || s[k] == '?');
                    assert(head[k] == s[k]);
                }
            }
        }
        assert(capitalized(s) =~= capitalized(head) + capitalized_at(s, n));
        assert(concat_all(all) == concat_all(before) + capitalized_at(s, n));
    }
}

/// The rules apply one after the other: what a rule is given is the text that
/// the rules before it leave, and only the rules that are enabled apply.
pub proof fn law_rules_apply_in_order(s: Seq<char>, c: PostProcessConfig)
    requires
        c.enabled,
    ensures
        ({
            let no_stop = PostProcessConfig { ensure_terminal_punctuation: false, ..c };
            let no_capitals = PostProcessConfig { capitalize_sentences: false, ..no_stop };
            let no_spacing = PostProcessConfig { normalize_whitespace: false, ..no_capitals };
            let no_collapse = PostProcessConfig { collapse_repeated_words: false, ..no_spacing };
            let no_fillers = PostProcessConfig { remove_fillers: false, ..no_collapse };
            let no_trailing = PostProcessConfig { remove_trailing_dashes: false, ..no_fillers };
            let none = PostProcessConfig { remove_leading_dashes: false, ..no_trailing };
            &&& post_processed(s, none) == s
            &&& c.remove_leading_dashes ==> post_processed(s, no_trailing)
                == without_leading_dashes(s)
            &&& c.remove_trailing_dashes ==> post_processed(s, no_fillers)
                == without_trailing_dashes(post_processed(s, no_trailing))
            &&& c.remove_fillers ==> post_processed(s, no_collapse) == join(
                without_fillers(words(post_processed(s, no_fillers))),
                seq![' '],
            )
            &&& c.collapse_repeated_words ==> post_processed(s, no_spacing) == join(
                without_repeats(words(post_processed(s, no_collapse))),
                seq![' '],
            )
            &&& c.normalize_whitespace ==> post_processed(s, no_capitals) == normalized(
                post_processed(s, no_spacing),
            )
            &&& c.capitalize_sentences ==> post_processed(s, no_stop) == capitalized(
                post_processed(s, no_capitals),
            )
            &&& c.ensure_terminal_punctuation ==> post_processed(s, c) == with_full_stop(
                post_processed(s, no_stop),
            )
        }),
{
}

} // verus!
