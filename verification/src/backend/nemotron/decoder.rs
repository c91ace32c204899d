//! Greedy decoding of a recurrent transducer: how tokens are emitted at each
//! frame. The networks run outside.

use vstd::prelude::*;

verus! {

/// The blank: nothing is emitted.
pub const BLANK: i64 = 13087;

/// Most tokens emitted at one frame.
pub const MAX_SYMBOLS: usize = 10;

/// Decoding under way.
#[derive(Debug)]
pub struct RnntDecoder {
    frames_left: usize,
    emitted: usize,
    tokens: Vec<i64>,
}

/// What an [`RnntDecoder`] holds.
#[verifier::ext_equal]
pub struct RnntModel {
    /// Frames not yet done with, the one under way among them.
    pub frames_left: int,
    /// Tokens emitted at the frame under way.
    pub emitted: int,
    pub tokens: Seq<i64>,
}

impl View for RnntDecoder {
    type V = RnntModel;

    closed spec fn view(&self) -> RnntModel {
        RnntModel {
            frames_left: self.frames_left as int,
            emitted: self.emitted as int,
            tokens: self.tokens@,
        }
    }
}

/// Decoding after the joiner's best token at the frame under way: it is
/// emitted, unless it is the blank or there are enough, which ends the frame.
pub open spec fn rnnt_step(m: RnntModel, k: i64) -> RnntModel {
    if k == BLANK || m.emitted >= MAX_SYMBOLS {
        RnntModel { frames_left: m.frames_left - 1, emitted: 0, ..m }
    } else {
        RnntModel { emitted: m.emitted + 1, tokens: m.tokens.push(k), ..m }
    }
}

/// Decoding after the answers in turn, as far as there are frames.
pub open spec fn rnnt_run(m: RnntModel, answers: Seq<i64>) -> RnntModel
    decreases answers.len(),
{
    if answers.len() == 0 || m.frames_left <= 0 {
        m
    } else {
        rnnt_run(rnnt_step(m, answers[0]), answers.skip(1))
    }
}

/// Whether decoding is in order: a frame is under way only while there is one,
/// and no frame emits too much.
pub open spec fn rnnt_invariant(m: RnntModel) -> bool {
    &&& 0 <= m.frames_left
    &&& 0 <= m.emitted <= MAX_SYMBOLS
}

impl RnntDecoder {
    /// The decoder's invariant.
    pub open spec fn wf(self) -> bool {
        rnnt_invariant(self@)
    }

    /// Begins decoding more frames, after the tokens emitted so far.
    pub fn new(frames: usize, tokens: Vec<i64>) -> (r: Self)
        ensures
            r.wf(),
            r@ == (RnntModel { frames_left: frames as int, emitted: 0, tokens: tokens@ }),
    {
        RnntDecoder { frames_left: frames, emitted: 0, tokens }
    }

    /// Whether the joiner is to be asked about the frame under way.
    pub fn goes_on(&self) -> (r: bool)
        ensures
            r == (self@.frames_left > 0),
    {
        self.frames_left > 0
    }

    /// Takes in the joiner's best token. The result is the token to be fed to
    /// the prediction network, or none where the next frame is up.
    pub fn answered(&mut self, k: i64) -> (r: Option<i64>)
        requires
            old(self).wf(),
            old(self)@.frames_left > 0,
        ensures
            final(self).wf(),
            final(self)@ == rnnt_step(old(self)@, k),
            r == (if k == BLANK || old(self)@.emitted >= MAX_SYMBOLS {
                None
            } else {
                Some(k)
            }),
    {
        if k == BLANK || self.emitted >= MAX_SYMBOLS {
            self.frames_left = self.frames_left - 1;
            self.emitted = 0;
            None
        } else {
            self.tokens.push(k);
            self.emitted = self.emitted + 1;
            Some(k)
        }
    }

    /// The tokens emitted, given up by the decoder.
    pub fn into_tokens(self) -> (r: Vec<i64>)
        ensures
            r@ == self@.tokens,
    {
        self.tokens
    }
}

/// Greedy decoding of frames, given the joiner's answers in turn; the tokens
/// are appended.
pub fn decode_frames(frames: usize, answers: &[i64], tokens: Vec<i64>) -> (r: Vec<i64>)
    ensures
        r@ == rnnt_run(
            RnntModel { frames_left: frames as int, emitted: 0, tokens: tokens@ },
            answers@,
        ).tokens,
{
    let mut decoder = RnntDecoder::new(frames, tokens);
    let ghost start = decoder@;
    let mut i: usize = 0;
    assert(answers@.skip(0) =~= answers@);
    while i < answers.len() && decoder.goes_on()
        invariant
            i <= answers@.len(),
            decoder.wf(),
            rnnt_run(start, answers@) == rnnt_run(decoder@, answers@.skip(i as int)),
        decreases answers@.len() - i,
    {
        assert(answers@.skip(i as int).skip(1) =~= answers@.skip(i + 1));
        decoder.answered(answers[i]);
        i += 1;
    }
    decoder.into_tokens()
}

/// Decoding comes to an end: with as many answers as all frames together can
/// take, no frame is left.
pub proof fn law_rnnt_ends(m: RnntModel, answers: Seq<i64>)
    requires
        rnnt_invariant(m),
        answers.len() >= m.frames_left * (MAX_SYMBOLS + 1) - m.emitted,
    ensures
        rnnt_run(m, answers).frames_left == 0,
    decreases answers.len(),
{
    if answers.len() > 0 && m.frames_left > 0 {
        let next = rnnt_step(m, answers[0]);
        assert((m.frames_left - 1) * (MAX_SYMBOLS + 1) == m.frames_left * (MAX_SYMBOLS + 1) - (
        MAX_SYMBOLS + 1)) by (nonlinear_arith);
        law_rnnt_ends(next, answers.skip(1));
    } else if m.frames_left > 0 {
        assert(m.frames_left * (MAX_SYMBOLS + 1) >= MAX_SYMBOLS + 1) by (nonlinear_arith)
            requires
                m.frames_left >= 1,
        ;
    }
}

/// The blank is never emitted.
pub proof fn law_rnnt_emits_no_blank(m: RnntModel, answers: Seq<i64>)
    requires
        forall|i: int| 0 <= i < m.tokens.len() ==> #[trigger] m.tokens[i] != BLANK,
    ensures
        ({
            let end = rnnt_run(m, answers);
            forall|i: int| 0 <= i < end.tokens.len() ==> #[trigger] end.tokens[i] != BLANK
        }),
    decreases answers.len(),
{
    if answers.len() > 0 && m.frames_left > 0 {
        let next = rnnt_step(m, answers[0]);
        law_rnnt_emits_no_blank(next, answers.skip(1));
        assert(rnnt_run(m, answers) == rnnt_run(next, answers.skip(1)));
    } else {
        assert(rnnt_run(m, answers) == m);
    }
}

/// At most ten tokens come of a frame.
pub proof fn law_rnnt_emission_is_bounded(m: RnntModel, answers: Seq<i64>)
    requires
        rnnt_invariant(m),
    ensures
        rnnt_run(m, answers).tokens.len() <= m.tokens.len() + m.frames_left * MAX_SYMBOLS
            - (if m.frames_left > 0 { m.emitted } else { 0 }),
    decreases answers.len(),
{
    if answers.len() > 0 && m.frames_left > 0 {
        let next = rnnt_step(m, answers[0]);
        assert((m.frames_left - 1) * MAX_SYMBOLS == m.frames_left * MAX_SYMBOLS - MAX_SYMBOLS)
            by (nonlinear_arith);
        law_rnnt_emission_is_bounded(next, answers.skip(1));
    } else if m.frames_left > 0 {
        assert(m.frames_left * MAX_SYMBOLS >= MAX_SYMBOLS) by (nonlinear_arith)
            requires
                m.frames_left >= 1,
        ;
    } else {
        assert(m.frames_left * MAX_SYMBOLS == 0);
    }
}

/// Whether the answers are just enough: with the last of them, and not
/// before, no frame is left.
pub open spec fn just_enough(m: RnntModel, answers: Seq<i64>) -> bool
    decreases answers.len(),
{
    if answers.len() == 0 {
        m.frames_left == 0
    } else {
        m.frames_left > 0 && just_enough(rnnt_step(m, answers[0]), answers.skip(1))
    }
}

/// Decoding batch by batch is decoding all at once: frames that follow others
/// are decoded as if they stood with them in one batch.
pub proof fn law_rnnt_decodes_in_batches(
    first: int,
    second: int,
    tokens: Seq<i64>,
    answers: Seq<i64>,
    more: Seq<i64>,
)
    requires
        first >= 0,
        second >= 0,
        just_enough(RnntModel { frames_left: first, emitted: 0, tokens }, answers),
    ensures
        ({
            let before = rnnt_run(
                RnntModel { frames_left: first, emitted: 0, tokens },
                answers,
            ).tokens;
            rnnt_run(
                RnntModel { frames_left: first + second, emitted: 0, tokens },
                answers + more,
            ) == rnnt_run(RnntModel { frames_left: second, emitted: 0, tokens: before }, more)
        }),
{
    lemma_rnnt_batches(
        RnntModel { frames_left: first, emitted: 0, tokens },
        second,
        answers,
        more,
    );
}

proof fn lemma_rnnt_batches(m: RnntModel, second: int, answers: Seq<i64>, more: Seq<i64>)
    requires
        second >= 0,
        just_enough(m, answers),
        m.frames_left == 0 ==> m.emitted == 0,
    ensures
        ({
            let end = rnnt_run(m, answers);
            &&& end.frames_left == 0
            &&& end.emitted == 0
            &&& rnnt_run(
                RnntModel { frames_left: m.frames_left + second, ..m },
                answers + more,
            ) == rnnt_run(RnntModel { frames_left: second, ..end }, more)
        }),
    decreases answers.len(),
{
    if answers.len() == 0 {
        assert(answers + more =~= more);
    } else {
        let next = rnnt_step(m, answers[0]);
        let wide = RnntModel { frames_left: m.frames_left + second, ..m };
        lemma_rnnt_batches(next, second, answers.skip(1), more);
        assert((answers + more).skip(1) =~= answers.skip(1) + more);
        assert((answers + more)[0] == answers[0]);
        assert(rnnt_step(wide, answers[0]) =~= RnntModel {
            frames_left: next.frames_left + second,
            ..next
        });
    }
}

/// The answers of a joiner, until no frame is left: asked about the frame under
/// way and what was emitted so far, it gives its best token. The frames not yet
/// done with are the last of `frames`.
pub open spec fn greedy_answers<F>(
    joiner: spec_fn(F, Seq<i64>) -> i64,
    frames: Seq<F>,
    m: RnntModel,
) -> Seq<i64>
    decreases m.frames_left, MAX_SYMBOLS + 1 - m.emitted,
{
    if m.frames_left <= 0 {
        Seq::empty()
    } else {
        let k = joiner(frames[frames.len() - m.frames_left], m.tokens);
        seq![k] + greedy_answers(joiner, frames, rnnt_step(m, k))
    }
}

/// The tokens after a joiner was asked about all of `frames`, `tokens` being
/// those before.
pub open spec fn greedy_tokens<F>(
    joiner: spec_fn(F, Seq<i64>) -> i64,
    frames: Seq<F>,
    tokens: Seq<i64>,
) -> Seq<i64> {
    let m = RnntModel { frames_left: frames.len() as int, emitted: 0, tokens };
    rnnt_run(m, greedy_answers(joiner, frames, m)).tokens
}

/// Whatever the joiner, its answers are just enough for the frames.
pub proof fn law_greedy_answers_are_just_enough<F>(
    joiner: spec_fn(F, Seq<i64>) -> i64,
    frames: Seq<F>,
    m: RnntModel,
)
    requires
        0 <= m.frames_left,
    ensures
        just_enough(m, greedy_answers(joiner, frames, m)),
    decreases m.frames_left, MAX_SYMBOLS + 1 - m.emitted,
{
    if m.frames_left > 0 {
        let k = joiner(frames[frames.len() - m.frames_left], m.tokens);
        let answers = greedy_answers(joiner, frames, m);
        law_greedy_answers_are_just_enough(joiner, frames, rnnt_step(m, k));
        assert(answers.skip(1) =~= greedy_answers(joiner, frames, rnnt_step(m, k)));
        assert(answers[0] == k);
    }
}

proof fn lemma_greedy_answers<F>(
    joiner: spec_fn(F, Seq<i64>) -> i64,
    a: Seq<F>,
    b: Seq<F>,
    m: RnntModel,
)
    requires
        0 <= m.frames_left <= a.len(),
        m.frames_left == 0 ==> m.emitted == 0,
    ensures
        ({
            let wide = RnntModel { frames_left: m.frames_left + b.len(), ..m };
            let answers = greedy_answers(joiner, a, m);
            let then = RnntModel {
                frames_left: b.len() as int,
                emitted: 0,
                tokens: rnnt_run(m, answers).tokens,
            };
            greedy_answers(joiner, a + b, wide) == answers + greedy_answers(joiner, b, then)
        }),
    decreases m.frames_left, MAX_SYMBOLS + 1 - m.emitted,
{
    let wide = RnntModel { frames_left: m.frames_left + b.len(), ..m };
    let answers = greedy_answers(joiner, a, m);
    if m.frames_left > 0 {
        let k = joiner(a[a.len() - m.frames_left], m.tokens);
        assert((a + b)[(a + b).len() - wide.frames_left] == a[a.len() - m.frames_left]);
        let next = rnnt_step(m, k);
        lemma_greedy_answers(joiner, a, b, next);
        let rest = greedy_answers(joiner, a, next);
        assert(answers.skip(1) =~= rest);
        assert(answers[0] == k);
        assert(rnnt_run(m, answers) == rnnt_run(next, rest));
        assert(rnnt_step(wide, k) =~= RnntModel {
            frames_left: next.frames_left + b.len(),
            ..next
        });
        let then = RnntModel {
            frames_left: b.len() as int,
            emitted: 0,
            tokens: rnnt_run(m, answers).tokens,
        };
        assert(greedy_answers(joiner, a + b, wide) =~= answers + greedy_answers(joiner, b, then));
    } else {
        let then = RnntModel { frames_left: b.len() as int, emitted: 0, tokens: m.tokens };
        assert(then =~= wide);
        assert(rnnt_run(m, answers) == m);
        lemma_greedy_answers_of_tail(joiner, a, b, wide);
        assert(answers + greedy_answers(joiner, b, then) =~= greedy_answers(joiner, b, then));
    }
}

proof fn lemma_greedy_answers_of_tail<F>(
    joiner: spec_fn(F, Seq<i64>) -> i64,
    a: Seq<F>,
    b: Seq<F>,
    m: RnntModel,
)
    requires
        m.frames_left <= b.len(),
    ensures
        greedy_answers(joiner, a + b, m) == greedy_answers(joiner, b, m),
    decreases m.frames_left, MAX_SYMBOLS + 1 - m.emitted,
{
    if m.frames_left > 0 {
        assert((a + b)[(a + b).len() - m.frames_left] == b[b.len() - m.frames_left]);
        let k = joiner(b[b.len() - m.frames_left], m.tokens);
        lemma_greedy_answers_of_tail(joiner, a, b, rnnt_step(m, k));
    }
}

/// With one joiner, frames decoded after others give the tokens that all of
/// them give when decoded together.
pub proof fn law_greedy_tokens_accumulate<F>(
    joiner: spec_fn(F, Seq<i64>) -> i64,
    a: Seq<F>,
    b: Seq<F>,
    tokens: Seq<i64>,
)
    ensures
        greedy_tokens(joiner, a + b, tokens) == greedy_tokens(
            joiner,
            b,
            greedy_tokens(joiner, a, tokens),
        ),
{
    let m = RnntModel { frames_left: a.len() as int, emitted: 0, tokens };
    let answers = greedy_answers(joiner, a, m);
    let before = rnnt_run(m, answers).tokens;
    let then = RnntModel { frames_left: b.len() as int, emitted: 0, tokens: before };
    lemma_greedy_answers(joiner, a, b, m);
    law_greedy_answers_are_just_enough(joiner, a, m);
    law_rnnt_decodes_in_batches(
        a.len() as int,
        b.len() as int,
        tokens,
        answers,
        greedy_answers(joiner, b, then),
    );
}

/// Answers at a frame are emitted as they come, repeated ones included, as long
/// as none is the blank and there are not more than ten at the frame.
pub proof fn law_rnnt_emits_the_answers(m: RnntModel, emitted: Seq<i64>, more: Seq<i64>)
    requires
        m.frames_left > 0,
        m.emitted + emitted.len() <= 10,
        forall|i: int| 0 <= i < emitted.len() ==> #[trigger] emitted[i] != BLANK,
    ensures
        rnnt_run(m, emitted + more) == rnnt_run(
            RnntModel {
                frames_left: m.frames_left,
                emitted: m.emitted + emitted.len(),
                tokens: m.tokens + emitted,
            },
            more,
        ),
    decreases emitted.len(),
{
    if emitted.len() == 0 {
        assert(emitted + more =~= more);
        assert(m.tokens + emitted =~= m.tokens);
    } else {
        let rest = emitted.skip(1);
        let next = rnnt_step(m, emitted[0]);
        assert((emitted + more)[0] == emitted[0]);
        assert((emitted + more).skip(1) =~= rest + more);
        assert forall|i: int| 0 <= i < rest.len() implies #[trigger] rest[i] != BLANK by {
            assert(rest[i] == emitted[i + 1]);
        }
        law_rnnt_emits_the_answers(next, rest, more);
        assert(next.tokens + rest =~= m.tokens + emitted);
    }
}

/// A frame is done with at the blank, which is not emitted; and at the answer
/// after ten, whatever it is, which is not emitted either. The next frame then
/// begins anew.
pub proof fn law_rnnt_frames_end(m: RnntModel, emitted: Seq<i64>, k: i64, more: Seq<i64>)
    requires
        m.frames_left > 0,
        m.emitted == 0,
        forall|i: int| 0 <= i < emitted.len() ==> #[trigger] emitted[i] != BLANK,
        emitted.len() == 10 || (emitted.len() < 10 && k == BLANK),
    ensures
        rnnt_run(m, emitted + (seq![k] + more)) == rnnt_run(
            RnntModel {
                frames_left: m.frames_left - 1,
                emitted: 0,
                tokens: m.tokens + emitted,
            },
            more,
        ),
{
    law_rnnt_emits_the_answers(m, emitted, seq![k] + more);
    assert((seq![k] + more).skip(1) =~= more);
    assert((seq![k] + more)[0] == k);
}

} // verus!
