//! Nemotron backend: languages, text from tokens, and streaming sessions.

use vstd::prelude::*;
use vstd::string::*;

use crate::backend::nemotron::decoder::{greedy_tokens, law_greedy_tokens_accumulate};
use crate::backend::nemotron::lang::{lang_id, locale_slot, offered_locales, supported_locales};
use crate::backend::nemotron::model::{
    chunk_views, law_streaming_encodes_what_offline_does, pending_chunks, plan_chunks,
    streamed_chunks, EncoderChunk, CHUNK_NEW,
};
use crate::backend::onnx_utils::{options_for, OnnxSessionOptions};
use crate::backend::traits::{ErrorModel, TranscriptionError};
use crate::backend::{BackendCapabilities, BackendConfig};
use crate::config::NemotronOptions;
use crate::samples::append_all;
use crate::text::chars::white_space;
use crate::text::strings::{
    concat_all, ends_with_str, ends_with, law_trimming_keeps_words, lemma_trimmed_ends, replace_char,
    starts_with, starts_with_str, trim, trimmed, views, with_char_replaced, words,
};

verus! {

/// Whether a token is a mark rather than text: in angle brackets.
pub open spec fn is_mark(token: Seq<char>) -> bool {
    starts_with(token, "<"@) && ends_with(token, ">"@)
}

/// The texts of the ids that the vocabulary knows and that are no marks.
pub open spec fn texts_of(ids: Seq<i64>, vocab: Seq<Seq<char>>) -> Seq<Seq<char>>
    decreases ids.len(),
{
    if ids.len() == 0 {
        Seq::empty()
    } else {
        let before = texts_of(ids.drop_last(), vocab);
        let id = ids.last() as int;
        if 0 <= id < vocab.len() && !is_mark(vocab[id]) {
            before.push(vocab[id])
        } else {
            before
        }
    }
}

/// The text of a list of ids: the tokens together, without marks, with the
/// word marker as a space, trimmed.
pub open spec fn detokenized(ids: Seq<i64>, vocab: Seq<Seq<char>>) -> Seq<char> {
    trim(replace_char(concat_all(texts_of(ids, vocab)), '\u{2581}', ' '))
}

/// The text of a list of ids.
pub fn detokenize(tokens: &Vec<i64>, vocab: &Vec<String>) -> (r: String)
    ensures
        r@ == detokenized(tokens@, views(vocab@)),
{
    let ghost all = views(vocab@);
    let mut text = String::new();
    let mut i: usize = 0;
    let count: usize = vocab.len();
    assert(text@ =~= concat_all(texts_of(tokens@.take(0), all)));
    while i < tokens.len()
        invariant
            all == views(vocab@),
            count == vocab@.len(),
            i <= tokens@.len(),
            text@ == concat_all(texts_of(tokens@.take(i as int), all)),
        decreases tokens@.len() - i,
    {
        let ghost before = texts_of(tokens@.take(i as int), all);
        assert(tokens@.take(i + 1).drop_last() =~= tokens@.take(i as int));
        assert(tokens@.take(i + 1).last() == tokens@[i as int]);
        let t: i64 = tokens[i];
        if t >= 0 && (t as u64) < count as u64 {
            let token = vocab[t as usize].as_str();
            assert(all[t as int] == token@);
            if !(starts_with_str(token, "<") && ends_with_str(token, ">")) {
                text.append(token);
                assert(before.push(token@).drop_last() =~= before);
            }
        }
        i += 1;
    }
    assert(tokens@.take(i as int) =~= tokens@);
    let spaced = with_char_replaced(text.as_str(), '\u{2581}', ' ');
    trimmed(spaced.as_str())
}

/// The slot of the language to transcribe in: the backend's own locale, or the
/// application's language where that is blank.
pub open spec fn language_slot(language: Seq<char>, options: NemotronOptions) -> i64 {
    if trim(options.language@).len() > 0 {
        locale_slot(options.language@)
    } else {
        locale_slot(language)
    }
}

/// The slot of the language to transcribe in.
pub fn resolve_lang(language: &str, options: &NemotronOptions) -> (r: i64)
    ensures
        r == language_slot(language@, *options),
{
    let own = trimmed(options.language.as_str());
    if own.as_str().unicode_len() > 0 {
        lang_id(options.language.as_str())
    } else {
        lang_id(language)
    }
}

/// A streaming utterance.
#[derive(Debug)]
pub struct StreamSession<S> {
    lang_id: i64,
    samples: Vec<S>,
    chunks_done: usize,
    tokens: Vec<i64>,
}

/// What a [`StreamSession`] holds.
#[verifier::ext_equal]
pub struct SessionState<S> {
    pub lang_id: i64,
    pub samples: Seq<S>,
    pub chunks_done: int,
    pub tokens: Seq<i64>,
}

impl<S> View for StreamSession<S> {
    type V = SessionState<S>;

    closed spec fn view(&self) -> SessionState<S> {
        SessionState {
            lang_id: self.lang_id,
            samples: self.samples@,
            chunks_done: self.chunks_done as int,
            tokens: self.tokens@,
        }
    }
}

/// Nemotron backend, with the utterance that is being streamed, if any.
#[derive(Debug)]
pub struct NemotronBackend<S> {
    config: BackendConfig,
    stream: Option<StreamSession<S>>,
}

/// What an optional utterance holds.
pub open spec fn stream_view<S>(s: Option<StreamSession<S>>) -> Option<SessionState<S>> {
    match s {
        Some(t) => Some(t@),
        None => None,
    }
}

/// The options of the encoder's sessions: at least one thread.
pub open spec fn nemotron_options(config: BackendConfig) -> OnnxSessionOptions {
    OnnxSessionOptions {
        intra_threads: if config.threads >= 1 { config.threads } else { 1 },
        ..options_for(config)
    }
}

impl<S: Copy> NemotronBackend<S> {
    /// The configuration the backend was made with.
    pub closed spec fn configuration(self) -> BackendConfig {
        self.config
    }

    /// The utterance that is being streamed, if any.
    pub closed spec fn session(self) -> Option<SessionState<S>> {
        stream_view(self.stream)
    }

    /// A backend that streams nothing.
    pub fn new(config: &BackendConfig) -> (r: Self)
        ensures
            r.configuration() == *config,
            r.session() is None,
    {
        NemotronBackend { config: *config, stream: None }
    }

    /// The options of the encoder's sessions.
    pub fn session_options(&self) -> (r: OnnxSessionOptions)
        ensures
            r == nemotron_options(self.configuration()),
    {
        let mut options = OnnxSessionOptions::from_config(&self.config);
        if options.intra_threads < 1 {
            options.intra_threads = 1;
        }
        options
    }

    /// What the backend can do: audio of any length, in the locales offered,
    /// streaming.
    pub fn capabilities(&self) -> (r: BackendCapabilities)
        ensures
            r.name@ == "nemotron-3.5-asr"@,
            r.max_audio_duration is None,
            r.supported_languages matches Some(l) && views(l@) == offered_locales(),
            r.supports_streaming,
            r.gpu_available == self.configuration().gpu_enabled,
    {
        BackendCapabilities {
            name: "nemotron-3.5-asr",
            max_audio_duration: None,
            supported_languages: Some(supported_locales()),
            supports_streaming: true,
            gpu_available: self.config.gpu_enabled,
        }
    }

    /// Starts a fresh utterance.
    pub fn stream_reset(&mut self, language: &str, options: &NemotronOptions)
        ensures
            final(self).configuration() == old(self).configuration(),
            final(self).session() == Some(
                SessionState::<S> {
                    lang_id: language_slot(language@, *options),
                    samples: Seq::empty(),
                    chunks_done: 0,
                    tokens: Seq::empty(),
                },
            ),
    {
        let lang_id = resolve_lang(language, options);
        let session = StreamSession {
            lang_id,
            samples: Vec::new(),
            chunks_done: 0,
            tokens: Vec::new(),
        };
        assert(session@ =~= (SessionState::<S> {
            lang_id: language_slot(language@, *options),
            samples: Seq::empty(),
            chunks_done: 0,
            tokens: Seq::empty(),
        }));
        self.stream = Some(session);
    }

    /// Takes in more audio of the utterance. The result is all its audio, for
    /// its frames to be computed.
    pub fn stream_push(&mut self, new_samples: &[S]) -> (r: Result<(), TranscriptionError>)
        ensures
            final(self).configuration() == old(self).configuration(),
            match old(self).session() {
                Some(s) => r is Ok && final(self).session() == Some(
                    SessionState { samples: s.samples + new_samples@, ..s },
                ),
                None => {
                    &&& r matches Err(e)
                    &&& e@ == ErrorModel::InferenceError("stream not started"@)
                    &&& final(self).session() is None
                },
            },
    {
        match self.stream.take() {
            Some(s) => {
                let mut s = s;
                append_all(&mut s.samples, new_samples);
                self.stream = Some(s);
                Ok(())
            },
            None => Err(TranscriptionError::InferenceError("stream not started".to_owned())),
        }
    }

    /// All the audio of the utterance.
    pub fn stream_samples(&self) -> (r: Option<&Vec<S>>)
        ensures
            match self.session() {
                Some(s) => r matches Some(v) && v@ == s.samples,
                None => r is None,
            },
    {
        match &self.stream {
            Some(s) => Some(&s.samples),
            None => None,
        }
    }

    /// The language and the chunks to be encoded next, the utterance's audio
    /// making up `total` frames. Only full chunks are, unless it is flushed.
    pub fn chunks_to_encode(&self, total: usize, flush: bool) -> (r: Option<
        (i64, Vec<EncoderChunk>),
    >)
        requires
            total + CHUNK_NEW <= usize::MAX,
        ensures
            match self.session() {
                Some(s) => r matches Some((id, chunks)) && id == s.lang_id && chunk_views(chunks@)
                    == pending_chunks(s.chunks_done, total as int, flush),
                None => r is None,
            },
    {
        match &self.stream {
            Some(s) => Some((s.lang_id, plan_chunks(s.chunks_done, total, flush))),
            None => None,
        }
    }

    /// One more chunk of the utterance was encoded.
    pub fn chunk_encoded(&mut self)
        requires
            old(self).session() is Some ==> old(self).session()->0.chunks_done < usize::MAX,
        ensures
            final(self).configuration() == old(self).configuration(),
            final(self).session() == (match old(self).session() {
                Some(s) => Some(SessionState { chunks_done: s.chunks_done + 1, ..s }),
                None => None,
            }),
    {
        match self.stream.take() {
            Some(s) => {
                let mut s = s;
                s.chunks_done = s.chunks_done + 1;
                self.stream = Some(s);
            },
            None => {},
        }
    }

    /// Hands out the utterance's tokens, to be decoded on.
    pub fn take_tokens(&mut self) -> (r: Vec<i64>)
        ensures
            final(self).configuration() == old(self).configuration(),
            r@ == (match old(self).session() {
                Some(s) => s.tokens,
                None => Seq::empty(),
            }),
            final(self).session() == (match old(self).session() {
                Some(s) => Some(SessionState { tokens: Seq::empty(), ..s }),
                None => None,
            }),
    {
        match self.stream.take() {
            Some(s) => {
                let mut s = s;
                let mut tokens: Vec<i64> = Vec::new();
                std::mem::swap(&mut tokens, &mut s.tokens);
                self.stream = Some(s);
                tokens
            },
            None => Vec::new(),
        }
    }

    /// Takes back the utterance's tokens, and gives the text they come to.
    pub fn put_tokens(&mut self, tokens: Vec<i64>, vocab: &Vec<String>) -> (r: String)
        ensures
            final(self).configuration() == old(self).configuration(),
            r@ == detokenized(tokens@, views(vocab@)),
            final(self).session() == (match old(self).session() {
                Some(s) => Some(SessionState { tokens: tokens@, ..s }),
                None => None,
            }),
    {
        let text = detokenize(&tokens, vocab);
        match self.stream.take() {
            Some(s) => {
                let mut s = s;
                s.tokens = tokens;
                self.stream = Some(s);
            },
            None => {},
        }
        text
    }

    /// Ends the utterance, and gives the text that its tokens come to. Until one
    /// is begun anew, audio is refused, there is nothing to encode, and the text
    /// is empty.
    pub fn stream_finish(&mut self, vocab: &Vec<String>) -> (r: String)
        ensures
            final(self).configuration() == old(self).configuration(),
            final(self).session() is None,
            r@ == (match old(self).session() {
                Some(s) => detokenized(s.tokens, views(vocab@)),
                None => Seq::empty(),
            }),
    {
        match self.stream.take() {
            Some(s) => detokenize(&s.tokens, vocab),
            None => {
                let nothing = String::new();
                assert(nothing@ =~= Seq::empty());
                nothing
            },
        }
    }
}

/// Tokens decoded later only add to the text's tokens: what came before stays.
pub proof fn law_texts_accumulate(a: Seq<i64>, b: Seq<i64>, vocab: Seq<Seq<char>>)
    ensures
        texts_of(a + b, vocab) == texts_of(a, vocab) + texts_of(b, vocab),
    decreases b.len(),
{
    if b.len() == 0 {
        assert(a + b =~= a);
        assert(texts_of(a, vocab) + texts_of(b, vocab) =~= texts_of(a, vocab));
    } else {
        assert((a + b).drop_last() =~= a + b.drop_last());
        law_texts_accumulate(a, b.drop_last(), vocab);
        assert(texts_of(a + b, vocab) =~= texts_of(a, vocab) + texts_of(b, vocab));
    }
}

/// No tokens come to no text.
pub proof fn law_no_tokens_no_text(vocab: Seq<Seq<char>>)
    ensures
        detokenized(Seq::empty(), vocab) == Seq::<char>::empty(),
{
    assert(texts_of(Seq::empty(), vocab) =~= Seq::empty());
    assert(concat_all(Seq::empty()) =~= Seq::empty());
    assert(replace_char(Seq::empty(), '\u{2581}', ' ') =~= Seq::empty());
}

/// The frames that an encoder gives for `chunks`, those `before` having been
/// encoded. Its frames for a chunk rest on that chunk and all before it, which
/// it remembers in part.
pub open spec fn encoded_frames<F>(
    encoder: spec_fn(Seq<(int, int)>) -> Seq<F>,
    before: Seq<(int, int)>,
    chunks: Seq<(int, int)>,
) -> Seq<F>
    decreases chunks.len(),
{
    if chunks.len() == 0 {
        Seq::empty()
    } else {
        encoded_frames(encoder, before, chunks.drop_last()) + encoder(before + chunks)
    }
}

/// The tokens of a recording of `total` frames that is transcribed whole.
pub open spec fn offline_tokens<F>(
    encoder: spec_fn(Seq<(int, int)>) -> Seq<F>,
    joiner: spec_fn(F, Seq<i64>) -> i64,
    total: int,
) -> Seq<i64> {
    let chunks = pending_chunks(0, total, true);
    greedy_tokens(joiner, encoded_frames(encoder, Seq::empty(), chunks), Seq::empty())
}

/// The tokens of a recording that is streamed, once it is finished: at each push
/// the chunks that are full among the frames there are by then are encoded and
/// decoded, and at the end the rest of all `total` frames. `before` are the
/// chunks encoded so far, `tokens` what they came to.
pub open spec fn streamed_tokens<F>(
    encoder: spec_fn(Seq<(int, int)>) -> Seq<F>,
    joiner: spec_fn(F, Seq<i64>) -> i64,
    before: Seq<(int, int)>,
    tokens: Seq<i64>,
    pushes: Seq<int>,
    total: int,
) -> Seq<i64>
    decreases pushes.len(),
{
    let done = before.len() as int;
    if pushes.len() == 0 {
        let rest = pending_chunks(done, total, true);
        greedy_tokens(joiner, encoded_frames(encoder, before, rest), tokens)
    } else {
        let here = pending_chunks(done, pushes[0], false);
        streamed_tokens(
            encoder,
            joiner,
            before + here,
            greedy_tokens(joiner, encoded_frames(encoder, before, here), tokens),
            pushes.skip(1),
            total,
        )
    }
}

proof fn lemma_encoded_frames<F>(
    encoder: spec_fn(Seq<(int, int)>) -> Seq<F>,
    before: Seq<(int, int)>,
    a: Seq<(int, int)>,
    b: Seq<(int, int)>,
)
    ensures
        encoded_frames(encoder, before, a + b) == encoded_frames(encoder, before, a)
            + encoded_frames(encoder, before + a, b),
    decreases b.len(),
{
    if b.len() == 0 {
        assert(a + b =~= a);
        assert(encoded_frames(encoder, before, a) + Seq::<F>::empty() =~= encoded_frames(
            encoder,
            before,
            a,
        ));
    } else {
        lemma_encoded_frames(encoder, before, a, b.drop_last());
        assert((a + b).drop_last() =~= a + b.drop_last());
        assert(before + (a + b) =~= (before + a) + b);
        assert(encoded_frames(encoder, before, a + b) =~= encoded_frames(encoder, before, a)
            + encoded_frames(encoder, before + a, b));
    }
}

proof fn lemma_streamed_tokens<F>(
    encoder: spec_fn(Seq<(int, int)>) -> Seq<F>,
    joiner: spec_fn(F, Seq<i64>) -> i64,
    before: Seq<(int, int)>,
    tokens: Seq<i64>,
    pushes: Seq<int>,
    total: int,
)
    ensures
        streamed_tokens(encoder, joiner, before, tokens, pushes, total) == greedy_tokens(
            joiner,
            encoded_frames(encoder, before, streamed_chunks(before.len() as int, pushes, total)),
            tokens,
        ),
    decreases pushes.len(),
{
    if pushes.len() > 0 {
        let here = pending_chunks(before.len() as int, pushes[0], false);
        let later = streamed_chunks((before + here).len() as int, pushes.skip(1), total);
        let now = encoded_frames(encoder, before, here);
        lemma_streamed_tokens(
            encoder,
            joiner,
            before + here,
            greedy_tokens(joiner, now, tokens),
            pushes.skip(1),
            total,
        );
        lemma_encoded_frames(encoder, before, here, later);
        law_greedy_tokens_accumulate(
            joiner,
            now,
            encoded_frames(encoder, before + here, later),
            tokens,
        );
    }
}

/// However a recording is pushed, a finished stream comes to the tokens, and so
/// to the text, of the recording transcribed whole, whatever the encoder and
/// the joiner answer, as long as they answer the same when asked the same.
pub proof fn law_streaming_transcribes_as_offline_does<F>(
    encoder: spec_fn(Seq<(int, int)>) -> Seq<F>,
    joiner: spec_fn(F, Seq<i64>) -> i64,
    pushes: Seq<int>,
    total: int,
    vocab: Seq<Seq<char>>,
)
    requires
        total >= 0,
        forall|i: int| 0 <= i < pushes.len() ==> 0 <= #[trigger] pushes[i] <= total,
    ensures
        ({
            let streamed = streamed_tokens(
                encoder,
                joiner,
                Seq::empty(),
                Seq::empty(),
                pushes,
                total,
            );
            let offline = offline_tokens(encoder, joiner, total);
            &&& streamed == offline
            &&& detokenized(streamed, vocab) == detokenized(offline, vocab)
        }),
{
    lemma_streamed_tokens(encoder, joiner, Seq::empty(), Seq::empty(), pushes, total);
    law_streaming_encodes_what_offline_does(pushes, total);
}

/// Whether an id stands for text in a vocabulary: it is one of its tokens, and
/// the token is not in angle brackets.
pub open spec fn stands_for_text(id: i64, vocab: Seq<Seq<char>>) -> bool {
    &&& 0 <= id < vocab.len()
    &&& !(vocab[id as int].len() > 0 && vocab[id as int][0] == '<' && vocab[id as int].last()
        == '>')
}

/// The text of a list of ids is made of the tokens that stand for text, each in
/// its place and as often as it comes.
pub proof fn law_texts_are_those_of_the_ids(ids: Seq<i64>, vocab: Seq<Seq<char>>)
    ensures
        texts_of(ids, vocab) == ids.filter(|id: i64| stands_for_text(id, vocab)).map_values(
            |id: i64| vocab[id as int],
        ),
    decreases ids.len(),
{
    let keep = |id: i64| stands_for_text(id, vocab);
    let text = |id: i64| vocab[id as int];
    reveal(Seq::filter);
    if ids.len() > 0 {
        law_texts_are_those_of_the_ids(ids.drop_last(), vocab);
        let id = ids.last();
        if 0 <= id < vocab.len() {
            lemma_mark(vocab[id as int]);
        }
        let before = ids.drop_last().filter(keep);
        assert(before.push(id).map_values(text) =~= before.map_values(text).push(text(id)));
    } else {
        assert(ids.filter(keep).map_values(text) =~= Seq::empty());
    }
}

proof fn lemma_mark(token: Seq<char>)
    ensures
        is_mark(token) <==> token.len() > 0 && token[0] == '<' && token.last() == '>',
{
    reveal_strlit("<");
    reveal_strlit(">");
    if token.len() > 0 {
        assert(token.subrange(0, 1)[0] == token[0]);
        assert(token.subrange(token.len() - 1, token.len() as int)[0] == token.last());
        if token[0] == '<' {
            assert(token.subrange(0, 1) =~= "<"@);
        }
        if token.last() == '>' {
            assert(token.subrange(token.len() - 1, token.len() as int) =~= ">"@);
        }
    }
}

/// The text of a list of ids has the words that its tokens make up once each
/// word marker counts as a space, and no white space around them.
pub proof fn law_text_has_the_words_of_its_tokens(ids: Seq<i64>, vocab: Seq<Seq<char>>)
    ensures
        ({
            let raw = concat_all(texts_of(ids, vocab));
            let spaced = Seq::new(
                raw.len(),
                |i: int|
                    if raw[i] == '\u{2581}' {
                        ' '
                    } else {
                        raw[i]
                    },
            );
            let text = detokenized(ids, vocab);
            &&& text == trim(spaced)
            &&& words(text) == words(spaced)
            &&& text.len() > 0 ==> !white_space(text[0]) && !white_space(text.last())
        }),
{
    let raw = concat_all(texts_of(ids, vocab));
    let spaced = Seq::new(
        raw.len(),
        |i: int|
            if raw[i] == '\u{2581}' {
                ' '
            } else {
                raw[i]
            },
    );
    assert(replace_char(raw, '\u{2581}', ' ') =~= spaced);
    law_trimming_keeps_words(spaced);
    lemma_trimmed_ends(spaced);
}

/// The backend's own locale counts, unless it is blank; then the application's
/// language does.
pub proof fn law_own_locale_counts(language: Seq<char>, options: NemotronOptions)
    ensures
        trim(options.language@).len() > 0 ==> language_slot(language, options) == locale_slot(
            options.language@,
        ),
        trim(options.language@).len() == 0 ==> language_slot(language, options) == locale_slot(
            language,
        ),
{
}

} // verus!
