//! The Parakeet vocabulary, read from the text of a `tokens.txt`.

use vstd::prelude::*;
use vstd::string::*;

use crate::backend::traits::{ErrorModel, TranscriptionError};
use crate::text::chars::{ascii_digit, white_space};
use crate::text::numbers::{
    decimal, int_error_text, law_decimal_reads_back, lemma_decimal_in_digits, parse_u32, parsed_u32,
};
use crate::text::strings::{
    chars_of, concat, concat3, concat_all, last_index_of, law_trimming_keeps_words,
    lemma_trimmed_ends, lines, position_of_last, replace_char, split_lines, string_of_range, trim,
    trimmed, views, with_char_replaced, words,
};
use std::collections::HashMap;

verus! {

broadcast use vstd::std_specs::hash::group_hash_axioms;

/// A vocabulary: the tokens by id, and the largest id.
#[verifier::ext_equal]
pub struct Vocabulary {
    pub tokens: Map<u32, Seq<char>>,
    pub max_id: int,
}

/// A line of the file: a token, a space, and an id. The token may contain
/// spaces itself.
pub open spec fn parsed_line(line: Seq<char>) -> Result<(Seq<char>, int), ErrorModel> {
    match last_index_of(line, ' ') {
        None => Err(
            ErrorModel::ModelNotAvailable("Invalid tokens.txt line (no space): "@ + line),
        ),
        Some(i) => {
            let id = line.skip(i + 1);
            match parsed_u32(id) {
                Ok(n) => Ok((line.take(i), n)),
                Err(e) => Err(
                    ErrorModel::ModelNotAvailable(
                        "Invalid token ID '"@ + id + "': "@ + int_error_text(e),
                    ),
                ),
            }
        },
    }
}

/// The vocabulary that the lines of a file give; blank lines are skipped, and
/// of two lines with one id the later counts.
pub open spec fn parsed_vocabulary(file: Seq<Seq<char>>) -> Result<Vocabulary, ErrorModel>
    decreases file.len(),
{
    if file.len() == 0 {
        Ok(Vocabulary { tokens: Map::empty(), max_id: 0 })
    } else {
        match parsed_vocabulary(file.drop_last()) {
            Err(e) => Err(e),
            Ok(v) => {
                let line = trim(file.last());
                if line.len() == 0 {
                    Ok(v)
                } else {
                    match parsed_line(line) {
                        Err(e) => Err(e),
                        Ok((token, id)) => Ok(
                            Vocabulary {
                                tokens: v.tokens.insert(id as u32, token),
                                max_id: if id > v.max_id { id } else { v.max_id },
                            },
                        ),
                    }
                }
            },
        }
    }
}

/// The tokens of the ids that the vocabulary knows, in order.
pub open spec fn known_tokens(tokens: Map<u32, Seq<char>>, ids: Seq<u32>) -> Seq<Seq<char>>
    decreases ids.len(),
{
    if ids.len() == 0 {
        Seq::empty()
    } else {
        let before = known_tokens(tokens, ids.drop_last());
        if tokens.contains_key(ids.last()) {
            before.push(tokens[ids.last()])
        } else {
            before
        }
    }
}

/// The text of a list of ids: the known tokens together, with the word marker
/// as a space, trimmed.
pub open spec fn decoded(tokens: Map<u32, Seq<char>>, ids: Seq<u32>) -> Seq<char> {
    trim(replace_char(concat_all(known_tokens(tokens, ids)), '\u{2581}', ' '))
}

/// The texts of a map of strings.
pub open spec fn token_views(m: Map<u32, String>) -> Map<u32, Seq<char>> {
    m.map_values(|s: String| s@)
}

/// The Parakeet vocabulary.
#[derive(Debug)]
pub struct ParakeetTokenizer {
    id_to_token: HashMap<u32, String>,
    blank_id: u32,
    vocab_size: usize,
}

fn read_line(line: &str) -> (r: Result<(String, u32), TranscriptionError>)
    ensures
        match parsed_line(line@) {
            Ok((token, id)) => r matches Ok((t, n)) && t@ == token && n == id,
            Err(e) => r matches Err(f) && f@ == e,
        },
{
    match position_of_last(line, ' ') {
        None => Err(
            TranscriptionError::ModelNotAvailable(
                concat("Invalid tokens.txt line (no space): ", line),
            ),
        ),
        Some(i) => {
            let chars = chars_of(line);
            let token = string_of_range(&chars, 0, i);
            let id = string_of_range(&chars, i + 1, chars.len());
            assert(token@ =~= line@.take(i as int));
            assert(id@ =~= line@.skip(i + 1));
            match parse_u32(id.as_str()) {
                Ok(n) => Ok((token, n)),
                Err(e) => {
                    let start = concat3("Invalid token ID '", id.as_str(), "': ");
                    Err(
                        TranscriptionError::ModelNotAvailable(
                            concat(start.as_str(), e.message().as_str()),
                        ),
                    )
                },
            }
        },
    }
}

impl ParakeetTokenizer {
    /// The tokens by id.
    pub closed spec fn tokens(self) -> Map<u32, Seq<char>> {
        token_views(self.id_to_token@)
    }

    /// The id of the blank.
    pub closed spec fn blank(self) -> u32 {
        self.blank_id
    }

    /// The size of the vocabulary.
    pub closed spec fn size(self) -> usize {
        self.vocab_size
    }

    /// Reads the vocabulary. The blank is the entry with the largest id.
    pub fn from_text(contents: &str) -> (r: Result<Self, TranscriptionError>)
        ensures
            match parsed_vocabulary(lines(contents@)) {
                Ok(v) => {
                    &&& r matches Ok(t)
                    &&& t.tokens() == v.tokens
                    &&& t.blank() == v.max_id
                    &&& t.size() == v.tokens.dom().len()
                },
                Err(e) => r matches Err(f) && f@ == e,
            },
    {
        let file = split_lines(contents);
        let ghost all = views(file@);
        let mut id_to_token: HashMap<u32, String> = HashMap::new();
        let mut max_id: u32 = 0;
        let mut i: usize = 0;
        assert(token_views(id_to_token@) =~= Map::empty());
        assert(all.take(0).len() == 0);
        while i < file.len()
            invariant
                all == views(file@),
                all == lines(contents@),
                i <= file@.len(),
                parsed_vocabulary(all.take(i as int)) == Ok::<Vocabulary, ErrorModel>(
                    Vocabulary { tokens: token_views(id_to_token@), max_id: max_id as int },
                ),
            decreases file@.len() - i,
        {
            let ghost before = id_to_token@;
            assert(all.take(i + 1).drop_last() =~= all.take(i as int));
            assert(all.take(i + 1).last() == file@[i as int]@);
            let line = trimmed(file[i].as_str());
            if line.as_str().unicode_len() > 0 {
                match read_line(line.as_str()) {
                    Err(e) => {
                        proof {
                            lemma_vocabulary_fault(all, i + 1);
                        }
                        return Err(e);
                    },
                    Ok((token, id)) => {
                        if id > max_id {
                            max_id = id;
                        }
                        id_to_token.insert(id, token);
                        assert(token_views(id_to_token@) =~= token_views(before).insert(id, token@));
                    },
                }
            }
            i += 1;
        }
        assert(all.take(i as int) =~= all);
        let vocab_size: usize = id_to_token.len();
        assert(token_views(id_to_token@).dom() =~= id_to_token@.dom());
        Ok(ParakeetTokenizer { id_to_token, blank_id: max_id, vocab_size })
    }

    /// The text of a list of ids; those unknown are skipped.
    pub fn decode(&self, ids: &[u32]) -> (r: String)
        ensures
            r@ == decoded(self.tokens(), ids@),
    {
        let mut text = String::new();
        let mut i: usize = 0;
        assert(text@ =~= concat_all(known_tokens(self.tokens(), ids@.take(0))));
        while i < ids.len()
            invariant
                i <= ids@.len(),
                text@ == concat_all(known_tokens(self.tokens(), ids@.take(i as int))),
            decreases ids@.len() - i,
        {
            let ghost before = known_tokens(self.tokens(), ids@.take(i as int));
            assert(ids@.take(i + 1).drop_last() =~= ids@.take(i as int));
            assert(ids@.take(i + 1).last() == ids@[i as int]);
            if let Some(token) = self.id_to_token.get(&ids[i]) {
                text.append(token.as_str());
                assert(before.push(token@).drop_last() =~= before);
            }
            i += 1;
        }
        assert(ids@.take(i as int) =~= ids@);
        let spaced = with_char_replaced(text.as_str(), '\u{2581}', ' ');
        trimmed(spaced.as_str())
    }

    /// The id of the blank.
    pub fn blank_id(&self) -> (r: u32)
        ensures
            r == self.blank(),
    {
        self.blank_id
    }

    /// The size of the vocabulary.
    pub fn vocab_size(&self) -> (r: usize)
        ensures
            r == self.size(),
    {
        self.vocab_size
    }
}

proof fn lemma_vocabulary_fault(file: Seq<Seq<char>>, k: int)
    requires
        0 <= k <= file.len(),
        parsed_vocabulary(file.take(k)) is Err,
    ensures
        parsed_vocabulary(file) == parsed_vocabulary(file.take(k)),
    decreases file.len(),
{
    if k == file.len() {
        assert(file.take(k) =~= file);
    } else {
        assert(file.drop_last().take(k) =~= file.take(k));
        lemma_vocabulary_fault(file.drop_last(), k);
    }
}

/// The blank's id is the largest of the vocabulary.
pub proof fn law_blank_is_the_largest_id(file: Seq<Seq<char>>, id: u32)
    requires
        parsed_vocabulary(file) is Ok,
        parsed_vocabulary(file)->Ok_0.tokens.contains_key(id),
    ensures
        id <= parsed_vocabulary(file)->Ok_0.max_id,
    decreases file.len(),
{
    if file.len() > 0 {
        let v = parsed_vocabulary(file.drop_last())->Ok_0;
        if v.tokens.contains_key(id) {
            law_blank_is_the_largest_id(file.drop_last(), id);
        }
        lemma_ids_fit(file);
    }
}

/// Ids read from a line fit in 32 bits.
proof fn lemma_ids_fit(file: Seq<Seq<char>>)
    requires
        file.len() > 0,
    ensures
        parsed_line(trim(file.last())) matches Ok((_, id)) ==> 0 <= id <= u32::MAX,
{
    let line = trim(file.last());
    if let Some(i) = last_index_of(line, ' ') {
        let id = line.skip(i + 1);
        crate::text::numbers::lemma_parsed_fits(id);
    }
}

/// Ids that the vocabulary does not know decode to nothing.
pub proof fn law_unknown_ids_decode_to_nothing(tokens: Map<u32, Seq<char>>, ids: Seq<u32>)
    requires
        forall|i: int| 0 <= i < ids.len() ==> !tokens.contains_key(#[trigger] ids[i]),
    ensures
        known_tokens(tokens, ids).len() == 0,
        decoded(tokens, ids).len() == 0,
    decreases ids.len(),
{
    if ids.len() > 0 {
        assert(!tokens.contains_key(ids[ids.len() - 1]));
        law_unknown_ids_decode_to_nothing(tokens, ids.drop_last());
    }
    assert(concat_all(known_tokens(tokens, ids)).len() == 0);
}

/// The error that the vocabulary file is missing.
pub fn missing_tokens_error(path: &str) -> (r: TranscriptionError)
    ensures
        r@ == ErrorModel::ModelNotAvailable("Parakeet tokens.txt not found: "@ + path@),
{
    TranscriptionError::ModelNotAvailable(concat("Parakeet tokens.txt not found: ", path))
}

/// The error that the vocabulary file cannot be read.
pub fn unreadable_tokens_error(path: &str, reason: &str) -> (r: TranscriptionError)
    ensures
        r@ == ErrorModel::IoError("Failed to read "@ + path@ + ": "@ + reason@),
{
    let start = concat3("Failed to read ", path, ": ");
    TranscriptionError::IoError(concat(start.as_str(), reason))
}

/// The text of a list of ids is made of the tokens that the vocabulary knows,
/// each in its place and as often as it comes.
pub proof fn law_decoded_tokens_are_those_of_the_ids(tokens: Map<u32, Seq<char>>, ids: Seq<u32>)
    ensures
        known_tokens(tokens, ids) == ids.filter(|id: u32| tokens.contains_key(id)).map_values(
            |id: u32| tokens[id],
        ),
    decreases ids.len(),
{
    let keep = |id: u32| tokens.contains_key(id);
    let text = |id: u32| tokens[id];
    reveal(Seq::filter);
    if ids.len() > 0 {
        law_decoded_tokens_are_those_of_the_ids(tokens, ids.drop_last());
        let before = ids.drop_last().filter(keep);
        assert(before.push(ids.last()).map_values(text) =~= before.map_values(text).push(
            text(ids.last()),
        ));
    } else {
        assert(ids.filter(keep).map_values(text) =~= Seq::empty());
    }
}

/// A line that holds a token, a space and an id reads back as these, though the
/// token may hold spaces; an id that is read with it replaces the one before,
/// and leaves every other token as it was.
pub proof fn law_lines_read_back(
    file: Seq<Seq<char>>,
    before: Vocabulary,
    token: Seq<char>,
    id: u32,
)
    requires
        parsed_vocabulary(file) == Ok::<Vocabulary, ErrorModel>(before),
        token.len() > 0,
        !white_space(token[0]),
    ensures
        ({
            let line = token.push(' ') + decimal(id as nat);
            &&& parsed_line(line) == Ok::<(Seq<char>, int), ErrorModel>((token, id as int))
            &&& parsed_vocabulary(file.push(line)) matches Ok(v)
            &&& v.tokens.contains_key(id)
            &&& v.tokens[id] == token
            &&& forall|other: u32|
                other != id ==> (#[trigger] v.tokens.contains_key(other)
                    <==> before.tokens.contains_key(other))
            &&& forall|other: u32|
                other != id && before.tokens.contains_key(other) ==> #[trigger] v.tokens[other]
                    == before.tokens[other]
            &&& v.max_id == (if id > before.max_id { id as int } else { before.max_id })
        }),
{
    let digits = decimal(id as nat);
    let line = token.push(' ') + digits;
    law_decimal_reads_back(id as nat);
    lemma_decimal_in_digits(id as nat);
    lemma_last_space(token, digits);
    assert(line.take(token.len() as int) =~= token);
    assert(line.skip(token.len() as int + 1) =~= digits);
    assert(line.last() == digits.last());
    assert(ascii_digit(digits[digits.len() - 1]));
    assert(trim(line) == line);
    assert(file.push(line).drop_last() =~= file);
}

proof fn lemma_last_space(token: Seq<char>, digits: Seq<char>)
    requires
        forall|i: int| 0 <= i < digits.len() ==> ascii_digit(#[trigger] digits[i]),
    ensures
        last_index_of(token.push(' ') + digits, ' ') == Some(token.len() as int),
    decreases digits.len(),
{
    let line = token.push(' ') + digits;
    if digits.len() > 0 {
        assert(line.last() == digits[digits.len() - 1]);
        let head = digits.drop_last();
        assert forall|i: int| 0 <= i < head.len() implies ascii_digit(#[trigger] head[i]) by {
            assert(head[i] == digits[i]);
        }
        assert(line.drop_last() =~= token.push(' ') + head);
        lemma_last_space(token, head);
    } else {
        assert(line =~= token.push(' '));
    }
}

/// Blank lines of the file count for nothing.
pub proof fn law_blank_lines_count_for_nothing(file: Seq<Seq<char>>, blank: Seq<char>)
    requires
        trim(blank).len() == 0,
    ensures
        parsed_vocabulary(file.push(blank)) == parsed_vocabulary(file),
{
    assert(file.push(blank).drop_last() =~= file);
}

/// The text of a list of ids has the words that its tokens make up once each
/// word marker counts as a space, and no white space around them.
pub proof fn law_decoded_text_has_the_words_of_its_tokens(
    tokens: Map<u32, Seq<char>>,
    ids: Seq<u32>,
)
    ensures
        ({
            let raw = concat_all(known_tokens(tokens, ids));
            let spaced = Seq::new(
                raw.len(),
                |i: int|
                    if raw[i] == '\u{2581}' {
                        ' '
                    } else {
                        raw[i]
                    },
            );
            let text = decoded(tokens, ids);
            &&& text == trim(spaced)
            &&& words(text) == words(spaced)
            &&& text.len() > 0 ==> !white_space(text[0]) && !white_space(text.last())
        }),
{
    let raw = concat_all(known_tokens(tokens, ids));
    let spaced = Seq::new(
        raw.len(),
        |i: int|
            if raw[i] == '\u{2581}' {
                ' '
            } else {
                raw[i]
            },
    );
    assert(replace_char(raw, '\u{2581}', ' ') =~= spaced);
    law_trimming_keeps_words(spaced);
    lemma_trimmed_ends(spaced);
}

} // verus!
