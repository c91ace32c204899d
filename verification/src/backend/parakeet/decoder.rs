//! Greedy decoding of a token-and-duration transducer: how tokens are emitted
//! and how the decoder moves along the frames. The networks run outside.

use vstd::prelude::*;

use crate::backend::traits::{ErrorModel, TranscriptionError};
use crate::text::numbers::{decimal, decimal_text};
use crate::text::strings::concat3;

verus! {

/// How many durations the joiner scores, after the tokens.
pub const DURATION_COUNT: usize = 5;

/// What the joiner said of a frame: the best token and the best duration.
#[derive(Debug, Clone, Copy, PartialEq, Eq, Structural)]
pub struct JoinerAnswer {
    pub token: u32,
    pub duration: usize,
}

/// Decoding under way.
#[derive(Debug)]
pub struct TdtDecoder {
    num_frames: usize,
    vocab_size: usize,
    blank_id: u32,
    max_steps: usize,
    frame: usize,
    steps: usize,
    tokens: Vec<u32>,
}

/// What a [`TdtDecoder`] holds.
#[verifier::ext_equal]
pub struct TdtModel {
    pub num_frames: int,
    pub vocab_size: int,
    pub blank_id: u32,
    pub max_steps: int,
    /// The frame the decoder stands at.
    pub frame: int,
    /// How many frames were judged.
    pub steps: int,
    pub tokens: Seq<u32>,
}

impl View for TdtDecoder {
    type V = TdtModel;

    closed spec fn view(&self) -> TdtModel {
        TdtModel {
            num_frames: self.num_frames as int,
            vocab_size: self.vocab_size as int,
            blank_id: self.blank_id,
            max_steps: self.max_steps as int,
            frame: self.frame as int,
            steps: self.steps as int,
            tokens: self.tokens@,
        }
    }
}

/// Whether another frame is to be judged.
pub open spec fn tdt_goes_on(m: TdtModel) -> bool {
    m.frame < m.num_frames && m.steps < m.max_steps
}

/// Decoding after a frame was judged: a token other than the blank is emitted,
/// and the decoder moves on by the duration, at least by one frame.
pub open spec fn tdt_step(m: TdtModel, a: JoinerAnswer) -> TdtModel {
    TdtModel {
        frame: m.frame + (if a.duration >= 1 { a.duration as int } else { 1 }),
        steps: m.steps + 1,
        tokens: if a.token == m.blank_id {
            m.tokens
        } else {
            m.tokens.push(a.token)
        },
        ..m
    }
}

/// Decoding after the answers in turn, as far as it goes on.
pub open spec fn tdt_run(m: TdtModel, answers: Seq<JoinerAnswer>) -> TdtModel
    decreases answers.len(),
{
    if answers.len() == 0 || !tdt_goes_on(m) {
        m
    } else {
        tdt_run(tdt_step(m, answers[0]), answers.skip(1))
    }
}

/// Decoding at its start.
pub open spec fn tdt_start(
    num_frames: int,
    vocab_size: int,
    blank_id: u32,
    max_steps: int,
) -> TdtModel {
    TdtModel {
        num_frames,
        vocab_size,
        blank_id,
        max_steps,
        frame: 0,
        steps: 0,
        tokens: Seq::empty(),
    }
}

/// The error that the joiner scored too little.
pub open spec fn too_small(len: int, vocab_size: int) -> ErrorModel {
    ErrorModel::InferenceError(
        "Joiner output too small: "@ + decimal(len as nat) + " (expected at least "@ + decimal(
            (vocab_size + DURATION_COUNT) as nat,
        ) + ")"@,
    )
}

impl TdtDecoder {
    /// Positions and sizes fit the machine.
    pub open spec fn wf(self) -> bool {
        &&& self@.num_frames + DURATION_COUNT <= usize::MAX
        &&& self@.vocab_size + DURATION_COUNT <= usize::MAX
        &&& 0 <= self@.steps <= self@.max_steps <= usize::MAX
        &&& 0 <= self@.frame
    }

    /// Begins decoding `num_frames` frames, in at most `max_steps` steps.
    pub fn new(num_frames: usize, vocab_size: usize, blank_id: u32, max_steps: usize) -> (r: Self)
        requires
            num_frames + DURATION_COUNT <= usize::MAX,
            vocab_size + DURATION_COUNT <= usize::MAX,
        ensures
            r.wf(),
            r@ == tdt_start(num_frames as int, vocab_size as int, blank_id, max_steps as int),
    {
        TdtDecoder {
            num_frames,
            vocab_size,
            blank_id,
            max_steps,
            frame: 0,
            steps: 0,
            tokens: Vec::new(),
        }
    }

    /// The frame to be judged next, if any.
    pub fn next_frame(&self) -> (r: Option<usize>)
        ensures
            match r {
                Some(t) => tdt_goes_on(self@) && t == self@.frame,
                None => !tdt_goes_on(self@),
            },
    {
        if self.frame < self.num_frames && self.steps < self.max_steps {
            Some(self.frame)
        } else {
            None
        }
    }

    /// Where the scores of the tokens end and those of the durations end, in
    /// the `len` scores that the joiner gave; an error where there are too few.
    pub fn split_scores(&self, len: usize) -> (r: Result<(usize, usize), TranscriptionError>)
        requires
            self.wf(),
        ensures
            match r {
                Ok((a, b)) => a == self@.vocab_size && b == self@.vocab_size + DURATION_COUNT && b
                    <= len,
                Err(e) => len < self@.vocab_size + DURATION_COUNT && e@ == too_small(
                    len as int,
                    self@.vocab_size,
                ),
            },
    {
        let wanted: usize = self.vocab_size + DURATION_COUNT;
        if len < wanted {
            let start = concat3(
                "Joiner output too small: ",
                decimal_text(len as u64).as_str(),
                " (expected at least ",
            );
            Err(
                TranscriptionError::InferenceError(
                    concat3(start.as_str(), decimal_text(wanted as u64).as_str(), ")"),
                ),
            )
        } else {
            Ok((self.vocab_size, wanted))
        }
    }

    /// Takes in what the joiner said of the frame. The result is the token to
    /// be fed to the prediction network, if one was emitted.
    pub fn frame_done(&mut self, answer: JoinerAnswer) -> (r: Option<u32>)
        requires
            old(self).wf(),
            tdt_goes_on(old(self)@),
            answer.duration <= DURATION_COUNT,
        ensures
            final(self).wf(),
            final(self)@ == tdt_step(old(self)@, answer),
            r == (if answer.token == old(self)@.blank_id { None } else { Some(answer.token) }),
    {
        self.steps = self.steps + 1;
        self.frame = self.frame + (if answer.duration >= 1 { answer.duration } else { 1 });
        if answer.token == self.blank_id {
            None
        } else {
            self.tokens.push(answer.token);
            Some(answer.token)
        }
    }

    /// The tokens emitted.
    pub fn tokens(&self) -> (r: &Vec<u32>)
        ensures
            r@ == self@.tokens,
    {
        &self.tokens
    }
}

/// Greedy decoding, given what the joiner says of the frames in turn.
pub fn greedy_decode_tdt(
    num_frames: usize,
    vocab_size: usize,
    blank_id: u32,
    max_steps: usize,
    answers: &[JoinerAnswer],
) -> (r: Vec<u32>)
    requires
        num_frames + DURATION_COUNT <= usize::MAX,
        vocab_size + DURATION_COUNT <= usize::MAX,
        forall|i: int|
            0 <= i < answers@.len() ==> (#[trigger] answers@[i]).duration <= DURATION_COUNT,
    ensures
        r@ == tdt_run(
            tdt_start(num_frames as int, vocab_size as int, blank_id, max_steps as int),
            answers@,
        ).tokens,
{
    let mut decoder = TdtDecoder::new(num_frames, vocab_size, blank_id, max_steps);
    let ghost start = decoder@;
    let mut i: usize = 0;
    assert(answers@.skip(0) =~= answers@);
    while i < answers.len() && decoder.next_frame().is_some()
        invariant
            i <= answers@.len(),
            decoder.wf(),
            forall|i: int|
                0 <= i < answers@.len() ==> (#[trigger] answers@[i]).duration <= DURATION_COUNT,
            tdt_run(start, answers@) == tdt_run(decoder@, answers@.skip(i as int)),
        decreases answers@.len() - i,
    {
        assert(answers@.skip(i as int).skip(1) =~= answers@.skip(i + 1));
        decoder.frame_done(answers[i]);
        i += 1;
    }
    assert(tdt_run(decoder@, answers@.skip(i as int)) == decoder@);
    decoder.tokens
}

/// Decoding comes to an end: every step moves the decoder on by at least a
/// frame, and after as many steps as there are frames it stops.
pub proof fn law_tdt_ends(m: TdtModel, answers: Seq<JoinerAnswer>)
    requires
        0 <= m.frame,
        m.num_frames - m.frame <= answers.len(),
    ensures
        !tdt_goes_on(tdt_run(m, answers)),
    decreases answers.len(),
{
    if answers.len() > 0 && tdt_goes_on(m) {
        law_tdt_ends(tdt_step(m, answers[0]), answers.skip(1));
    }
}

/// The blank is never emitted, and no step emits more than one token.
pub proof fn law_tdt_emits_no_blank(m: TdtModel, answers: Seq<JoinerAnswer>)
    requires
        forall|i: int| 0 <= i < m.tokens.len() ==> #[trigger] m.tokens[i] != m.blank_id,
        m.tokens.len() <= m.steps,
    ensures
        ({
            let end = tdt_run(m, answers);
            &&& end.blank_id == m.blank_id
            &&& forall|i: int| 0 <= i < end.tokens.len() ==> #[trigger] end.tokens[i] != m.blank_id
            &&& end.tokens.len() <= end.steps
        }),
    decreases answers.len(),
{
    if answers.len() > 0 && tdt_goes_on(m) {
        law_tdt_emits_no_blank(tdt_step(m, answers[0]), answers.skip(1));
    }
}

/// How many frames the answers move the decoder on by: each by its duration, at
/// least by one.
pub open spec fn frames_moved(answers: Seq<JoinerAnswer>) -> int
    decreases answers.len(),
{
    if answers.len() == 0 {
        0
    } else {
        frames_moved(answers.drop_last()) + (if answers.last().duration >= 1 {
            answers.last().duration as int
        } else {
            1
        })
    }
}

/// The tokens of the answers, but for the blank.
pub open spec fn spoken_tokens(answers: Seq<JoinerAnswer>, blank_id: u32) -> Seq<u32> {
    answers.map_values(|a: JoinerAnswer| a.token).filter(|t: u32| t != blank_id)
}

proof fn lemma_frames_moved(a: JoinerAnswer, rest: Seq<JoinerAnswer>)
    ensures
        frames_moved(seq![a] + rest) == frames_moved(seq![a]) + frames_moved(rest),
        frames_moved(seq![a]) == (if a.duration >= 1 { a.duration as int } else { 1 }),
    decreases rest.len(),
{
    let one = seq![a];
    assert(one.drop_last() =~= Seq::empty());
    assert(frames_moved(one.drop_last()) == 0);
    if rest.len() == 0 {
        assert(one + rest =~= one);
    } else {
        lemma_frames_moved(a, rest.drop_last());
        assert((one + rest).drop_last() =~= one + rest.drop_last());
    }
}

proof fn lemma_spoken_tokens(a: JoinerAnswer, rest: Seq<JoinerAnswer>, blank_id: u32)
    ensures
        spoken_tokens(seq![a] + rest, blank_id) == (if a.token == blank_id {
            Seq::empty()
        } else {
            seq![a.token]
        }) + spoken_tokens(rest, blank_id),
{
    let keep = |t: u32| t != blank_id;
    let token = |x: JoinerAnswer| x.token;
    let first = seq![a].map_values(token);
    assert((seq![a] + rest).map_values(token) =~= first + rest.map_values(token));
    Seq::filter_distributes_over_add(first, rest.map_values(token), keep);
    assert(first =~= Seq::<u32>::empty().push(a.token));
    reveal_with_fuel(Seq::filter, 2);
    assert(first.drop_last() =~= Seq::empty());
}

/// The tokens emitted are those of the answers that were judged, in order,
/// repeated ones included, and without the blank. The answers are judged in
/// turn, from the first on, each while the decoder stands before the end and
/// has steps left; and all of them are, unless it came to either.
pub proof fn law_tdt_emits_what_was_judged(m: TdtModel, answers: Seq<JoinerAnswer>)
    ensures
        ({
            let end = tdt_run(m, answers);
            let n = end.steps - m.steps;
            let judged = answers.take(n);
            &&& 0 <= n <= answers.len()
            &&& end.tokens == m.tokens + spoken_tokens(judged, m.blank_id)
            &&& end.frame == m.frame + frames_moved(judged)
            &&& forall|k: int|
                0 <= k < n ==> m.frame + #[trigger] frames_moved(answers.take(k)) < m.num_frames
                    && m.steps + k < m.max_steps
            &&& n == answers.len() || end.frame >= m.num_frames || end.steps >= m.max_steps
        }),
    decreases answers.len(),
{
    let end = tdt_run(m, answers);
    if answers.len() == 0 || !tdt_goes_on(m) {
        assert(answers.take(0) =~= Seq::empty());
        assert(spoken_tokens(answers.take(0), m.blank_id) =~= Seq::empty()) by {
            reveal(Seq::filter);
        }
        assert(m.tokens + Seq::<u32>::empty() =~= m.tokens);
    } else {
        let a = answers[0];
        let rest = answers.skip(1);
        let next = tdt_step(m, a);
        law_tdt_emits_what_was_judged(next, rest);
        let n = end.steps - m.steps;
        assert(answers.take(n) =~= seq![a] + rest.take(n - 1));
        lemma_frames_moved(a, rest.take(n - 1));
        lemma_spoken_tokens(a, rest.take(n - 1), m.blank_id);
        assert(end.tokens =~= m.tokens + spoken_tokens(answers.take(n), m.blank_id));
        assert forall|k: int| 0 <= k < n implies m.frame + #[trigger] frames_moved(answers.take(k))
            < m.num_frames && m.steps + k < m.max_steps by {
            if k == 0 {
                assert(answers.take(0) =~= Seq::empty());
            } else {
                assert(answers.take(k) =~= seq![a] + rest.take(k - 1));
                lemma_frames_moved(a, rest.take(k - 1));
            }
        }
    }
}

} // verus!
