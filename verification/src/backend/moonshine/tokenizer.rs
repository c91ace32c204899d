//! The special tokens of a Moonshine vocabulary.

use vstd::prelude::*;

use crate::backend::traits::{ErrorModel, TranscriptionError};
use crate::text::strings::{concat, owned, str_views, views};

verus! {

/// A vocabulary of the `tokenizers` crate.
#[verifier::external_type_specification]
#[verifier::external_body]
pub struct ExTokenizer(tokenizers::Tokenizer);

/// The ids of the tokens that a tokenizer knows.
pub uninterp spec fn token_ids(t: tokenizers::Tokenizer) -> Map<Seq<char>, u32>;

/// Calls `token_to_id` of `tokenizers::Tokenizer`: the id of a token, where the
/// added tokens or the model's vocabulary hold it.
#[verifier::external_body]
pub(crate) fn token_to_id(tokenizer: &tokenizers::Tokenizer, token: &str) -> (r: Option<u32>)
    ensures
        r == (if token_ids(*tokenizer).contains_key(token@) {
            Some(token_ids(*tokenizer)[token@])
        } else {
            None
        }),
{
    tokenizer.token_to_id(token)
}

/// The names that exports give to the token a text begins with.
pub open spec fn bos_candidates() -> Seq<Seq<char>> {
    seq!["<s>"@, "<|startoftranscript|>"@, "<|startoftext|>"@, "<sos>"@, "<bos>"@, "[BOS]"@]
}

/// The names that exports give to the token a text ends with.
pub open spec fn eos_candidates() -> Seq<Seq<char>> {
    seq!["</s>"@, "<|endoftext|>"@, "<|endoftranscript|>"@, "<eos>"@, "[EOS]"@, "<|eot|>"@]
}

/// The id of the first candidate that the vocabulary holds.
pub open spec fn first_known(ids: Map<Seq<char>, u32>, candidates: Seq<Seq<char>>) -> Option<u32>
    decreases candidates.len(),
{
    if candidates.len() == 0 {
        None
    } else if ids.contains_key(candidates[0]) {
        Some(ids[candidates[0]])
    } else {
        first_known(ids, candidates.skip(1))
    }
}

/// What a vocabulary lacks of its special tokens, if anything.
pub open spec fn special_fault(ids: Map<Seq<char>, u32>) -> Option<ErrorModel> {
    if first_known(ids, bos_candidates()) is None {
        Some(ErrorModel::ModelNotAvailable("Moonshine tokenizer missing BOS token"@))
    } else if first_known(ids, eos_candidates()) is None {
        Some(ErrorModel::ModelNotAvailable("Moonshine tokenizer missing EOS token"@))
    } else {
        None
    }
}

/// A Moonshine vocabulary.
#[derive(Debug)]
pub struct MoonshineTokenizer {
    tokenizer: tokenizers::Tokenizer,
    bos_token_id: u32,
    eos_token_id: u32,
}

/// The id of the first candidate that a tokenizer knows.
pub fn resolve_special_token(tokenizer: &tokenizers::Tokenizer, candidates: &Vec<String>) -> (r:
    Option<u32>)
    ensures
        r == first_known(token_ids(*tokenizer), views(candidates@)),
{
    let ghost all = views(candidates@);
    let mut i: usize = 0;
    assert(all.skip(0) =~= all);
    while i < candidates.len()
        invariant
            all == views(candidates@),
            i <= candidates@.len(),
            first_known(token_ids(*tokenizer), all) == first_known(
                token_ids(*tokenizer),
                all.skip(i as int),
            ),
        decreases candidates@.len() - i,
    {
        assert(all.skip(i as int)[0] == candidates@[i as int]@);
        if let Some(id) = token_to_id(tokenizer, candidates[i].as_str()) {
            return Some(id);
        }
        assert(all.skip(i as int).skip(1) =~= all.skip(i + 1));
        i += 1;
    }
    assert(all.skip(i as int).len() == 0);
    None
}

impl MoonshineTokenizer {
    /// The tokenizer it was made from.
    pub closed spec fn inner(self) -> tokenizers::Tokenizer {
        self.tokenizer
    }

    /// The id of the token a text begins with.
    pub closed spec fn bos(self) -> u32 {
        self.bos_token_id
    }

    /// The id of the token a text ends with.
    pub closed spec fn eos(self) -> u32 {
        self.eos_token_id
    }

    /// Looks up the special tokens of a tokenizer.
    pub fn new(tokenizer: tokenizers::Tokenizer) -> (r: Result<Self, TranscriptionError>)
        ensures
            match special_fault(token_ids(tokenizer)) {
                Some(m) => r matches Err(e) && e@ == m,
                None => {
                    &&& r matches Ok(t)
                    &&& t.inner() == tokenizer
                    &&& Some(t.bos()) == first_known(token_ids(tokenizer), bos_candidates())
                    &&& Some(t.eos()) == first_known(token_ids(tokenizer), eos_candidates())
                },
            },
    {
        let begins: [&'static str; 6] = [
            "<s>",
            "<|startoftranscript|>",
            "<|startoftext|>",
            "<sos>",
            "<bos>",
            "[BOS]",
        ];
        let ends: [&'static str; 6] = [
            "</s>",
            "<|endoftext|>",
            "<|endoftranscript|>",
            "<eos>",
            "[EOS]",
            "<|eot|>",
        ];
        assert(str_views(begins@) =~= bos_candidates());
        assert(str_views(ends@) =~= eos_candidates());
        let bos_token_id = match resolve_special_token(&tokenizer, &owned(begins)) {
            Some(id) => id,
            None => return Err(
                TranscriptionError::ModelNotAvailable(
                    "Moonshine tokenizer missing BOS token".to_owned(),
                ),
            ),
        };
        let eos_token_id = match resolve_special_token(&tokenizer, &owned(ends)) {
            Some(id) => id,
            None => return Err(
                TranscriptionError::ModelNotAvailable(
                    "Moonshine tokenizer missing EOS token".to_owned(),
                ),
            ),
        };
        Ok(MoonshineTokenizer { tokenizer, bos_token_id, eos_token_id })
    }

    /// The tokenizer, for decoding.
    pub fn tokenizer(&self) -> (r: &tokenizers::Tokenizer)
        ensures
            *r == self.inner(),
    {
        &self.tokenizer
    }

    /// The id of the token a text begins with.
    pub fn bos_token_id(&self) -> (r: u32)
        ensures
            r == self.bos(),
    {
        self.bos_token_id
    }

    /// The id of the token a text ends with.
    pub fn eos_token_id(&self) -> (r: u32)
        ensures
            r == self.eos(),
    {
        self.eos_token_id
    }
}

/// The error that the vocabulary file is missing.
pub fn missing_tokenizer_error(path: &str) -> (r: TranscriptionError)
    ensures
        r@ == ErrorModel::ModelNotAvailable("Moonshine tokenizer not found: "@ + path@),
{
    TranscriptionError::ModelNotAvailable(concat("Moonshine tokenizer not found: ", path))
}

/// The error that the vocabulary cannot be loaded.
pub fn tokenizer_load_error(reason: &str) -> (r: TranscriptionError)
    ensures
        r@ == ErrorModel::ModelNotAvailable("Failed to load Moonshine tokenizer: "@ + reason@),
{
    TranscriptionError::ModelNotAvailable(concat("Failed to load Moonshine tokenizer: ", reason))
}

/// Of the names of a special token the first that the vocabulary holds counts;
/// there is none only where it holds none of them.
pub proof fn law_first_known_name_counts(ids: Map<Seq<char>, u32>, candidates: Seq<Seq<char>>)
    ensures
        match first_known(ids, candidates) {
            Some(id) => exists|k: int|
                0 <= k < candidates.len() && ids.contains_key(#[trigger] candidates[k]) && id
                    == ids[candidates[k]] && forall|j: int|
                    0 <= j < k ==> !ids.contains_key(#[trigger] candidates[j]),
            None => forall|j: int|
                0 <= j < candidates.len() ==> !ids.contains_key(#[trigger] candidates[j]),
        },
    decreases candidates.len(),
{
    if candidates.len() > 0 {
        if ids.contains_key(candidates[0]) {
        } else {
            let rest = candidates.skip(1);
            law_first_known_name_counts(ids, rest);
            assert forall|j: int| 0 < j < candidates.len() implies candidates[j] == rest[j - 1] by {}
            match first_known(ids, candidates) {
                Some(id) => {
                    let k = choose|k: int|
                        0 <= k < rest.len() && ids.contains_key(#[trigger] rest[k]) && id
                            == ids[rest[k]] && forall|j: int|
                            0 <= j < k ==> !ids.contains_key(#[trigger] rest[j]);
                    assert(candidates[k + 1] == rest[k]);
                    assert forall|j: int| 0 <= j < k + 1 implies !ids.contains_key(
                        #[trigger] candidates[j],
                    ) by {
                        if j > 0 {
                            assert(candidates[j] == rest[j - 1]);
                        }
                    }
                },
                None => {
                    assert forall|j: int| 0 <= j < candidates.len() implies !ids.contains_key(
                        #[trigger] candidates[j],
                    ) by {
                        if j > 0 {
                            assert(candidates[j] == rest[j - 1]);
                        }
                    }
                },
            }
        }
    }
}

} // verus!
