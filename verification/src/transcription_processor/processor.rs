//! Transcribing segments: prompts, texts in place of failures, and recordings
//! that are split into chunks.

use vstd::prelude::*;
use vstd::string::*;

use crate::backend::traits::{error_text, TranscriptionError};
use crate::config::{PostProcessConfig, WhisperCppOptions};
use crate::post_processor::{post_process_text, post_processed};
use crate::real_time_transcriber::TranscriptionMessage;
use crate::samples::copy_range;
use crate::silero_audio_processor::{AudioSegment, SegmentModel};
use crate::state::ProcessingState;
use crate::text::strings::{
    concat3, is_word, join, joined, law_joined_words_split_again, law_trimming_keeps_words,
    law_words_are_words, lemma_space, lemma_words_of_parts, opt_view, split_words, trim, trimmed,
    views, words,
};
use crate::transcription_processor::chunks::{
    build_vad_guided_chunks, guided_chunks, law_chunks_partition, partitions, ranges,
};

verus! {

/// Words of the previous chunk that the next one is prompted with.
pub const PROMPT_CONTEXT_WORDS: usize = 30;

/// The last `max` words of a text; the text itself where it has no more.
pub open spec fn prompt_context(text: Seq<char>, max: int) -> Seq<char> {
    let w = words(text);
    if w.len() <= max {
        text
    } else {
        join(w.skip(w.len() - max), seq![' '])
    }
}

/// Extracts the last `max_words` words of a text for use as a prompt.
pub fn extract_prompt_context(text: &str, max_words: usize) -> (r: String)
    ensures
        r@ == prompt_context(text@, max_words as int),
{
    let all = split_words(text);
    let count: usize = all.len();
    assert(views(all@).len() == count);
    if count <= max_words {
        return text.to_owned();
    }
    let skip: usize = count - max_words;
    let mut last: Vec<String> = Vec::new();
    let mut i: usize = skip;
    assert(views(last@) =~= views(all@).subrange(skip as int, skip as int));
    while i < count
        invariant
            skip <= i <= count,
            count == all@.len(),
            views(last@) == views(all@).subrange(skip as int, i as int),
        decreases count - i,
    {
        let word = all[i].clone();
        let ghost before = views(last@);
        last.push(word);
        assert(views(last@) =~= before.push(word@));
        assert(views(all@).subrange(skip as int, i + 1) =~= before.push(views(all@)[i as int]));
        i += 1;
    }
    assert(views(all@).subrange(skip as int, count as int) =~= views(all@).skip(skip as int));
    proof {
        lemma_space();
    }
    joined(&last, " ")
}

/// What became of an attempt to transcribe.
#[derive(Debug)]
pub enum Inference {
    /// No backend is loaded.
    Unavailable,
    /// The application was built without any backend.
    NotBuilt,
    /// The backend's answer.
    Answered(Result<String, TranscriptionError>),
}

/// The text that an attempt to transcribe comes to, and the processing state
/// to be shown after it. While it lasts the state is transcribing.
pub open spec fn transcript_of(inference: Inference, config: PostProcessConfig) -> (
    Seq<char>,
    ProcessingState,
) {
    match inference {
        Inference::Unavailable => ("[backend not available]"@, ProcessingState::Idle),
        Inference::NotBuilt => (
            "[no transcription backend feature enabled]"@,
            ProcessingState::Error,
        ),
        Inference::Answered(Ok(text)) => (post_processed(text@, config), ProcessingState::Idle),
        Inference::Answered(Err(e)) => (
            "[transcription error: "@ + error_text(e@) + "]"@,
            ProcessingState::Error,
        ),
    }
}

/// How a manual recording is transcribed.
#[derive(Debug, Clone, Copy, PartialEq, Eq, Structural)]
pub enum ManualPlan {
    /// As a single segment.
    Whole,
    /// Split into chunks.
    Chunked,
}

/// How a manual recording of `duration` samples is transcribed: in chunks
/// where it is at least as long as the backend takes, or, for a backend
/// without a limit, as the configured chunk; whole where chunking is off.
pub open spec fn manual_plan(
    duration: int,
    sample_rate: int,
    backend_max_secs: Option<u32>,
    reaches_chunk_duration: bool,
    disable_chunking: bool,
) -> ManualPlan {
    let long = match backend_max_secs {
        Some(max) => duration >= max * sample_rate,
        None => reaches_chunk_duration,
    };
    if long && !disable_chunking {
        ManualPlan::Chunked
    } else {
        ManualPlan::Whole
    }
}

/// The chunk from `start` to `end` of a recording.
pub open spec fn chunk_of<S>(segment: SegmentModel<S>, start: int, end: int) -> SegmentModel<S> {
    SegmentModel {
        samples: segment.samples.subrange(start, end),
        start_time: segment.start_time + start,
        end_time: segment.start_time + end,
        ..segment
    }
}

/// The texts that are kept of those transcribed: trimmed, without empty ones.
pub open spec fn kept_texts(texts: Seq<Seq<char>>) -> Seq<Seq<char>>
    decreases texts.len(),
{
    if texts.len() == 0 {
        Seq::empty()
    } else {
        let before = kept_texts(texts.drop_last());
        let t = trim(texts.last());
        if t.len() > 0 {
            before.push(t)
        } else {
            before
        }
    }
}

/// The prompt for the next chunk: the end of the latest text kept, if any.
pub open spec fn next_prompt(kept: Seq<Seq<char>>) -> Option<Seq<char>> {
    if kept.len() > 0 && kept.last().len() > 0 {
        Some(prompt_context(kept.last(), PROMPT_CONTEXT_WORDS as int))
    } else {
        None
    }
}

/// Handles the processing of audio segments for transcription.
#[derive(Debug)]
pub struct TranscriptionProcessor {
    /// The language transcribed.
    pub language: String,
}

impl TranscriptionProcessor {
    /// A processor for a language.
    pub fn new(language: String) -> (r: Self)
        ensures
            r.language == language,
    {
        TranscriptionProcessor { language }
    }

    /// The text that an attempt to transcribe comes to, and the processing
    /// state to be shown after it.
    pub fn transcribe_segment(inference: Inference, config: &PostProcessConfig) -> (r: (
        String,
        ProcessingState,
    ))
        ensures
            (r.0@, r.1) == transcript_of(inference, *config),
    {
        match inference {
            Inference::Unavailable => (
                "[backend not available]".to_owned(),
                ProcessingState::Idle,
            ),
            Inference::NotBuilt => (
                "[no transcription backend feature enabled]".to_owned(),
                ProcessingState::Error,
            ),
            Inference::Answered(answer) => match answer {
                Ok(text) => (post_process_text(text, config), ProcessingState::Idle),
                Err(e) => (
                    concat3("[transcription error: ", e.to_string().as_str(), "]"),
                    ProcessingState::Error,
                ),
            },
        }
    }

    /// whisper.cpp's options with a prompt, unless it is empty.
    pub fn with_prompt<F: Copy>(options: &WhisperCppOptions<F>, prompt: Option<&str>) -> (r:
        WhisperCppOptions<F>)
        ensures
            r.temperature == options.temperature,
            r.suppress_blank == options.suppress_blank,
            r.no_context == options.no_context,
            r.max_tokens == options.max_tokens,
            opt_view(r.initial_prompt) == (match prompt {
                Some(p) if p@.len() > 0 => Some(p@),
                _ => opt_view(options.initial_prompt),
            }),
    {
        let standing = match &options.initial_prompt {
            Some(p) => Some(p.clone()),
            None => None,
        };
        let initial_prompt = match prompt {
            Some(p) => if p.unicode_len() > 0 {
                Some(p.to_owned())
            } else {
                standing
            },
            None => standing,
        };
        WhisperCppOptions {
            temperature: options.temperature,
            suppress_blank: options.suppress_blank,
            no_context: options.no_context,
            max_tokens: options.max_tokens,
            initial_prompt,
        }
    }

    /// The message that the transcript of a segment becomes: final, in the
    /// segment's session, and none where there is no text.
    pub fn final_message(text: String, session_id: Option<String>) -> (r: Option<
        TranscriptionMessage,
    >)
        ensures
            match r {
                Some(m) => text@.len() > 0 && m.text == text && m.session_id == session_id
                    && m.is_final,
                None => text@.len() == 0,
            },
    {
        if text.as_str().unicode_len() == 0 {
            None
        } else {
            Some(TranscriptionMessage { text, session_id, is_final: true })
        }
    }

    /// How a manual recording is transcribed.
    pub fn plan_manual_segment<S>(
        segment: &AudioSegment<S>,
        backend_max_secs: Option<u32>,
        reaches_chunk_duration: bool,
        disable_chunking: bool,
    ) -> (r: ManualPlan)
        requires
            segment@.start_time <= segment@.end_time,
        ensures
            r == manual_plan(
                segment@.end_time - segment@.start_time,
                segment@.sample_rate,
                backend_max_secs,
                reaches_chunk_duration,
                disable_chunking,
            ),
    {
        if disable_chunking {
            return ManualPlan::Whole;
        }
        let duration: u128 = (segment.end_time - segment.start_time) as u128;
        let long = match backend_max_secs {
            Some(max) => {
                assert(max as int * segment.sample_rate as int <= u32::MAX as int
                    * u64::MAX as int) by (nonlinear_arith)
                    requires
                        0 <= max <= u32::MAX,
                        0 <= segment.sample_rate <= u64::MAX,
                ;
                duration >= max as u128 * segment.sample_rate as u128
            },
            None => reaches_chunk_duration,
        };
        if long {
            ManualPlan::Chunked
        } else {
            ManualPlan::Whole
        }
    }

    /// Chunk ranges of a recording, split at pauses where possible.
    pub fn build_vad_guided_chunks(
        total_len: usize,
        max_chunk_samples: usize,
        pause_points: &[usize],
        sample_rate: usize,
    ) -> (r: Vec<(usize, usize)>)
        requires
            max_chunk_samples > 0,
        ensures
            ranges(r@) == guided_chunks(
                total_len as int,
                max_chunk_samples as int,
                pause_points@,
                sample_rate as int,
            ),
    {
        build_vad_guided_chunks(total_len, max_chunk_samples, pause_points, sample_rate)
    }
}

/// A long manual recording under transcription, chunk by chunk.
#[derive(Debug)]
pub struct ChunkedTranscription<S> {
    segment: AudioSegment<S>,
    chunks: Vec<(usize, usize)>,
    next: usize,
    kept: Vec<String>,
}

/// What a [`ChunkedTranscription`] holds.
pub struct ChunkedModel<S> {
    pub segment: SegmentModel<S>,
    pub chunks: Seq<(int, int)>,
    /// How many chunks were transcribed.
    pub done: int,
    /// Their texts, trimmed, without empty ones.
    pub kept: Seq<Seq<char>>,
}

impl<S> View for ChunkedTranscription<S> {
    type V = ChunkedModel<S>;

    closed spec fn view(&self) -> ChunkedModel<S> {
        ChunkedModel {
            segment: self.segment@,
            chunks: ranges(self.chunks@),
            done: self.next as int,
            kept: views(self.kept@),
        }
    }
}

impl<S: Copy> ChunkedTranscription<S> {
    /// The chunks lie within the recording, and its times fit the machine.
    pub open spec fn wf(self) -> bool {
        &&& 0 <= self@.done <= self@.chunks.len()
        &&& forall|i: int|
            0 <= i < self@.chunks.len() ==> 0 <= (#[trigger] self@.chunks[i]).0
                <= self@.chunks[i].1 <= self@.segment.samples.len()
        &&& self@.segment.start_time + self@.segment.samples.len() <= u64::MAX
    }

    /// Splits a recording for transcription.
    pub fn new(
        segment: AudioSegment<S>,
        max_chunk_samples: usize,
        pause_points: &[usize],
    ) -> (r: Self)
        requires
            max_chunk_samples > 0,
            segment@.start_time + segment@.samples.len() <= u64::MAX,
        ensures
            r.wf(),
            r@.segment == segment@,
            r@.chunks == guided_chunks(
                segment@.samples.len() as int,
                max_chunk_samples as int,
                pause_points@,
                segment@.sample_rate,
            ),
            r@.done == 0,
            r@.kept.len() == 0,
    {
        let total: usize = segment.samples.len();
        let chunks = build_vad_guided_chunks(
            total,
            max_chunk_samples,
            pause_points,
            segment.sample_rate,
        );
        proof {
            let parts = ranges(chunks@);
            law_chunks_partition(
                total as int,
                max_chunk_samples as int,
                pause_points@,
                segment@.sample_rate,
            );
            lemma_parts_within(parts, total as int);
        }
        ChunkedTranscription { segment, chunks, next: 0, kept: Vec::new() }
    }

    /// How many chunks there are.
    pub fn chunk_count(&self) -> (r: usize)
        ensures
            r == self@.chunks.len(),
    {
        self.chunks.len()
    }

    /// The next chunk to be transcribed, with its prompt; none when all are.
    pub fn next_chunk(&self) -> (r: Option<(AudioSegment<S>, Option<String>)>)
        requires
            self.wf(),
        ensures
            match r {
                Some((chunk, prompt)) => {
                    &&& self@.done < self@.chunks.len()
                    &&& chunk@ == chunk_of(
                        self@.segment,
                        self@.chunks[self@.done].0,
                        self@.chunks[self@.done].1,
                    )
                    &&& opt_view(prompt) == next_prompt(self@.kept)
                },
                None => self@.done == self@.chunks.len(),
            },
    {
        if self.next >= self.chunks.len() {
            return None;
        }
        let (start, end) = self.chunks[self.next];
        assert(self@.chunks[self@.done] == (start as int, end as int));
        let chunk = AudioSegment {
            samples: copy_range(self.segment.samples.as_slice(), start, end),
            start_time: self.segment.start_time + start as u64,
            end_time: self.segment.start_time + end as u64,
            sample_rate: self.segment.sample_rate,
            session_id: match &self.segment.session_id {
                Some(id) => Some(id.clone()),
                None => None,
            },
            is_manual: self.segment.is_manual,
        };
        assert(chunk@ =~= chunk_of(self@.segment, start as int, end as int));
        let count: usize = self.kept.len();
        assert(views(self.kept@).len() == count);
        let prompt = if count > 0 && self.kept[count - 1].as_str().unicode_len() > 0 {
            Some(extract_prompt_context(self.kept[count - 1].as_str(), PROMPT_CONTEXT_WORDS))
        } else {
            None
        };
        Some((chunk, prompt))
    }

    /// Takes in the text of the chunk handed out last.
    pub fn chunk_done(&mut self, text: &str)
        requires
            old(self).wf(),
            old(self)@.done < old(self)@.chunks.len(),
        ensures
            final(self).wf(),
            final(self)@.segment == old(self)@.segment,
            final(self)@.chunks == old(self)@.chunks,
            final(self)@.done == old(self)@.done + 1,
            final(self)@.kept == (if trim(text@).len() > 0 {
                old(self)@.kept.push(trim(text@))
            } else {
                old(self)@.kept
            }),
    {
        let count: usize = self.chunks.len();
        assert(self.next < count);
        let t = trimmed(text);
        if t.as_str().unicode_len() > 0 {
            let ghost before = views(self.kept@);
            self.kept.push(t);
            assert(views(self.kept@) =~= before.push(t@));
        }
        self.next = self.next + 1;
    }

    /// The transcript: the texts of the chunks with spaces between them.
    pub fn transcript(&self) -> (r: String)
        ensures
            r@ == join(self@.kept, seq![' ']),
    {
        proof {
            lemma_space();
        }
        joined(&self.kept, " ")
    }
}

proof fn lemma_parts_within(parts: Seq<(int, int)>, total: int)
    requires
        total >= 0,
        partitions(parts, 0, total),
    ensures
        forall|i: int|
            0 <= i < parts.len() ==> 0 <= (#[trigger] parts[i]).0 <= parts[i].1 <= total,
{
    assert forall|i: int| 0 <= i < parts.len() implies 0 <= (#[trigger] parts[i]).0 by {
        lemma_part_start(parts, total, i);
    }
    assert forall|i: int| 0 <= i < parts.len() implies (#[trigger] parts[i]).1 <= total by {
        lemma_part_end(parts, total, i);
    }
}

proof fn lemma_part_start(parts: Seq<(int, int)>, total: int, i: int)
    requires
        partitions(parts, 0, total),
        0 <= i < parts.len(),
    ensures
        parts[i].0 >= 0,
    decreases i,
{
    if i > 0 {
        lemma_part_start(parts, total, i - 1);
        assert(parts[i - 1].1 == parts[i].0);
        assert(parts[i - 1].0 < parts[i - 1].1);
    }
}

proof fn lemma_part_end(parts: Seq<(int, int)>, total: int, i: int)
    requires
        partitions(parts, 0, total),
        0 <= i < parts.len(),
    ensures
        parts[i].1 <= total,
    decreases parts.len() - i,
{
    if i < parts.len() - 1 {
        lemma_part_end(parts, total, i + 1);
        assert(parts[i].1 == parts[i + 1].0);
        assert(parts[i + 1].0 < parts[i + 1].1);
    }
}

/// Transcribes a long manual recording, given the text that each of its chunks
/// is transcribed to, in order: the texts, trimmed and without empty ones,
/// joined by spaces.
pub fn process_large_manual_segment<S: Copy>(
    segment: AudioSegment<S>,
    max_chunk_samples: usize,
    pause_points: &[usize],
    texts: &Vec<String>,
) -> (r: String)
    requires
        max_chunk_samples > 0,
        segment@.start_time + segment@.samples.len() <= u64::MAX,
        texts@.len() == guided_chunks(
            segment@.samples.len() as int,
            max_chunk_samples as int,
            pause_points@,
            segment@.sample_rate,
        ).len(),
    ensures
        r@ == join(kept_texts(views(texts@)), seq![' ']),
{
    let mut work = ChunkedTranscription::new(segment, max_chunk_samples, pause_points);
    let ghost all = views(texts@);
    let mut i: usize = 0;
    assert(work@.kept =~= kept_texts(all.take(0)));
    while i < texts.len()
        invariant
            all == views(texts@),
            i <= texts@.len(),
            work.wf(),
            work@.done == i,
            work@.chunks.len() == texts@.len(),
            work@.kept == kept_texts(all.take(i as int)),
        decreases texts@.len() - i,
    {
        assert(all.take(i + 1).drop_last() =~= all.take(i as int));
        assert(all.take(i + 1).last() == texts@[i as int]@);
        work.chunk_done(texts[i].as_str());
        i += 1;
    }
    assert(all.take(i as int) =~= all);
    work.transcript()
}

/// The chunks of a recording, one after the other, are the recording.
#[verifier::spinoff_prover]
pub proof fn law_chunks_lose_nothing<S>(
    segment: SegmentModel<S>,
    max_chunk_samples: int,
    pauses: Seq<usize>,
    i: int,
)
    requires
        max_chunk_samples > 0,
        segment.sample_rate >= 0,
        0 <= i < segment.samples.len(),
    ensures
        ({
            let chunks = guided_chunks(
                segment.samples.len() as int,
                max_chunk_samples,
                pauses,
                segment.sample_rate,
            );
            exists|k: int|
                0 <= k < chunks.len() && (#[trigger] chunks[k]).0 <= i < chunks[k].1 && chunk_of(
                    segment,
                    chunks[k].0,
                    chunks[k].1,
                ).samples[i - chunks[k].0] == segment.samples[i]
        }),
{
    let total = segment.samples.len() as int;
    let chunks = guided_chunks(total, max_chunk_samples, pauses, segment.sample_rate);
    law_chunks_partition(total, max_chunk_samples, pauses, segment.sample_rate);
    lemma_parts_within(chunks, total);
    lemma_part_holding(chunks, total, i, chunks.len() - 1);
    let k = choose|k: int| 0 <= k < chunks.len() && (#[trigger] chunks[k]).0 <= i < chunks[k].1;
    let (from, to) = chunks[k];
    assert(0 <= from <= i < to <= total);
    assert(segment.samples.subrange(from, to)[i - from] == segment.samples[i]);
    assert(chunk_of(segment, chunks[k].0, chunks[k].1).samples[i - chunks[k].0]
        == segment.samples[i]);
}

proof fn lemma_part_holding(parts: Seq<(int, int)>, total: int, i: int, k: int)
    requires
        partitions(parts, 0, total),
        0 <= k < parts.len(),
        0 <= i < parts[k].1,
        total > 0,
    ensures
        exists|j: int| 0 <= j < parts.len() && (#[trigger] parts[j]).0 <= i < parts[j].1,
    decreases k,
{
    if parts[k].0 <= i {
    } else {
        assert(k > 0);
        assert(parts[k - 1].1 == parts[k].0);
        lemma_part_holding(parts, total, i, k - 1);
    }
}

/// A prompt holds the last words of a text, as many as there may be: all of them
/// where there are no more.
pub proof fn law_prompt_is_the_last_words(text: &str, max_words: usize, r: String)
    requires
        call_ensures(extract_prompt_context, (text, max_words), r),
    ensures
        ({
            let all = words(text@);
            words(r@) == (if all.len() <= max_words {
                all
            } else {
                all.skip(all.len() - max_words)
            })
        }),
        words(text@).len() <= max_words ==> r@ == text@,
{
    let all = words(text@);
    law_words_are_words(text@);
    if all.len() > max_words {
        let last = all.skip(all.len() - max_words);
        assert forall|i: int| 0 <= i < last.len() implies is_word(#[trigger] last[i]) by {
            assert(last[i] == all[i + (all.len() - max_words)]);
        }
        law_joined_words_split_again(last);
    }
}

/// What a transcript says of its attempt: the backend's text, cleaned up, where
/// it gave one, and else why there is none, in brackets. An error is shown where
/// the backend failed or none was built, and nowhere else.
pub proof fn law_transcripts_tell_what_happened(inference: Inference, config: PostProcessConfig)
    ensures
        ({
            let (text, state) = transcript_of(inference, config);
            match inference {
                Inference::Answered(Ok(answer)) => {
                    &&& text == post_processed(answer@, config)
                    &&& !config.enabled ==> text == answer@
                    &&& state == ProcessingState::Idle
                },
                Inference::Answered(Err(e)) => {
                    &&& text == "[transcription error: "@ + error_text(e@) + "]"@
                    &&& state == ProcessingState::Error
                },
                Inference::Unavailable => text == "[backend not available]"@ && state
                    == ProcessingState::Idle,
                Inference::NotBuilt => text == "[no transcription backend feature enabled]"@
                    && state == ProcessingState::Error,
            }
        }),
{
}

/// Chunking is decided by length alone, unless it is off: whatever is chunked
/// would be chunked if it were longer, and a recording shorter than the backend
/// takes is transcribed whole.
pub proof fn law_longer_recordings_are_chunked(
    duration: int,
    longer: int,
    sample_rate: int,
    max_secs: u32,
    reaches: bool,
    disable_chunking: bool,
)
    requires
        duration <= longer,
    ensures
        manual_plan(duration, sample_rate, Some(max_secs), reaches, disable_chunking)
            == ManualPlan::Chunked ==> manual_plan(
            longer,
            sample_rate,
            Some(max_secs),
            reaches,
            disable_chunking,
        ) == ManualPlan::Chunked,
        manual_plan(duration, sample_rate, Some(max_secs), reaches, disable_chunking)
            == ManualPlan::Chunked <==> !disable_chunking && duration >= max_secs * sample_rate,
        manual_plan(duration, sample_rate, None, reaches, disable_chunking) == ManualPlan::Chunked
            <==> !disable_chunking && reaches,
{
}

/// The words of several texts, one text after the other.
pub open spec fn all_the_words(texts: Seq<Seq<char>>) -> Seq<Seq<char>>
    decreases texts.len(),
{
    if texts.len() == 0 {
        Seq::empty()
    } else {
        all_the_words(texts.drop_last()) + words(texts.last())
    }
}

proof fn lemma_words_of_joined(list: Seq<Seq<char>>)
    ensures
        words(join(list, seq![' '])) == all_the_words(list),
    decreases list.len(),
{
    if list.len() == 0 {
        assert(words(join(list, seq![' '])) =~= Seq::empty());
    } else {
        let head = list.drop_last();
        lemma_words_of_joined(head);
        if list.len() == 1 {
            assert(all_the_words(head) =~= Seq::empty());
            assert(all_the_words(list) =~= words(list[0]));
        } else {
            let tail = seq![' '] + list.last();
            lemma_words_of_parts(join(head, seq![' ']), tail);
            assert(join(list, seq![' ']) =~= join(head, seq![' ']) + tail);
            assert(tail.drop_first() =~= list.last());
        }
    }
}

proof fn lemma_words_of_kept(texts: Seq<Seq<char>>)
    ensures
        all_the_words(kept_texts(texts)) == all_the_words(texts),
    decreases texts.len(),
{
    if texts.len() > 0 {
        let head = texts.drop_last();
        lemma_words_of_kept(head);
        law_trimming_keeps_words(texts.last());
        let t = trim(texts.last());
        if t.len() > 0 {
            assert(kept_texts(head).push(t).drop_last() =~= kept_texts(head));
        } else {
            assert(words(t) =~= Seq::empty());
            assert(all_the_words(head) + words(texts.last()) =~= all_the_words(head));
        }
    }
}

/// The transcript of a chunked recording has the words of its chunks' texts, all
/// of them, in order, and no others.
pub proof fn law_chunked_transcripts_keep_every_word(texts: Seq<Seq<char>>)
    ensures
        words(join(kept_texts(texts), seq![' '])) == all_the_words(texts),
{
    lemma_words_of_joined(kept_texts(texts));
    lemma_words_of_kept(texts);
}

/// Of the chunks' texts those with any word are kept, trimmed, in order; and the
/// next chunk is prompted with the last thirty words of the latest of them.
pub proof fn law_prompts_carry_on(texts: Seq<Seq<char>>)
    ensures
        kept_texts(texts) == texts.map_values(|t: Seq<char>| trim(t)).filter(
            |t: Seq<char>| t.len() > 0,
        ),
        next_prompt(kept_texts(texts)) is Some <==> kept_texts(texts).len() > 0,
        kept_texts(texts).len() > 0 ==> next_prompt(kept_texts(texts)) == Some(
            prompt_context(kept_texts(texts).last(), 30),
        ),
    decreases texts.len(),
{
    let keep = |t: Seq<char>| t.len() > 0;
    let cut = |t: Seq<char>| trim(t);
    reveal(Seq::filter);
    if texts.len() > 0 {
        law_prompts_carry_on(texts.drop_last());
        assert(texts.map_values(cut).drop_last() =~= texts.drop_last().map_values(cut));
    } else {
        assert(texts.map_values(cut).filter(keep) =~= Seq::empty());
    }
}

/// A chunk keeps to its place: its times are those of its samples in the
/// recording, and it belongs to the recording's session.
pub proof fn law_chunks_keep_their_place<S>(segment: SegmentModel<S>, start: int, end: int)
    requires
        0 <= start <= end <= segment.samples.len(),
    ensures
        ({
            let c = chunk_of(segment, start, end);
            &&& c.samples.len() == end - start
            &&& c.end_time - c.start_time == c.samples.len()
            &&& c.start_time == segment.start_time + start
            &&& c.sample_rate == segment.sample_rate
            &&& c.session_id == segment.session_id
            &&& c.is_manual == segment.is_manual
            &&& forall|i: int|
                0 <= i < c.samples.len() ==> #[trigger] c.samples[i] == segment.samples[start + i]
        }),
{
}

/// Every transcript with text becomes one final message, of the segment's session
/// and with that text; one without becomes none.
pub proof fn law_transcripts_become_final_messages(
    text: String,
    session_id: Option<String>,
    r: Option<TranscriptionMessage>,
)
    requires
        call_ensures(TranscriptionProcessor::final_message, (text, session_id), r),
    ensures
        r is Some <==> text@.len() > 0,
        r matches Some(m) ==> m.is_final && m.text == text && m.session_id == session_id,
{
}

} // verus!
