//! Finding natural pauses in a recording, as places to split it.

use vstd::prelude::*;

use crate::samples::copy_range;
use crate::silero_audio_processor::{
    after_frame, fresh_vad, FrameVerdict, SileroVad, VadConfig, VadModel, VadState,
};

verus! {

/// Samples in a frame.
pub const PAUSE_FRAME_SIZE: usize = 512;

/// Samples from one frame to the next.
pub const PAUSE_HOP: usize = 160;

/// Shortest pause, in milliseconds, that is worth splitting at.
pub const MIN_PAUSE_MILLIS: usize = 300;

/// The detector's configuration for finding pauses in `len` samples: a shorter
/// hangover than usual, and a history that is never cut.
pub fn pause_config<P>(
    threshold: P,
    speech_end_threshold: P,
    speech_prob_smoothing: P,
    sample_rate: usize,
    len: usize,
) -> (r: VadConfig<P>)
    requires
        len <= usize::MAX / 8,
    ensures
        r == pause_vad(threshold, speech_end_threshold, speech_prob_smoothing, sample_rate, len),
        r.valid(),
{
    VadConfig {
        threshold,
        frame_size: PAUSE_FRAME_SIZE,
        sample_rate,
        hangbefore_frames: 3,
        hangover_frames: 15,
        hop_samples: PAUSE_HOP,
        max_buffer_duration: len + 1024,
        max_segment_count: 1000,
        silence_tolerance_frames: 3,
        speech_end_threshold,
        speech_prob_smoothing,
    }
}

/// The detector's configuration for finding pauses in `len` samples.
pub open spec fn pause_vad<P>(
    threshold: P,
    speech_end_threshold: P,
    speech_prob_smoothing: P,
    sample_rate: usize,
    len: usize,
) -> VadConfig<P> {
    VadConfig {
        threshold,
        frame_size: 512,
        sample_rate,
        hangbefore_frames: 3,
        hangover_frames: 15,
        hop_samples: 160,
        max_buffer_duration: (len + 1024) as usize,
        max_segment_count: 1000,
        silence_tolerance_frames: 3,
        speech_end_threshold,
        speech_prob_smoothing,
    }
}

/// How many frames fit in `len` samples.
pub open spec fn frame_count(len: int) -> int {
    if len < PAUSE_FRAME_SIZE {
        0
    } else {
        (len - PAUSE_FRAME_SIZE) / PAUSE_HOP as int + 1
    }
}

/// The `k`-th frame of a recording.
pub open spec fn frame_at<S>(samples: Seq<S>, k: int) -> Seq<S> {
    samples.subrange(k * PAUSE_HOP, k * PAUSE_HOP + PAUSE_FRAME_SIZE)
}

/// The search for pauses, after some frames.
#[verifier::ext_equal]
pub struct PauseModel {
    /// The split points found.
    pub points: Seq<int>,
    pub was_speaking: bool,
    /// Where the pause under way began.
    pub pause_start: Option<int>,
    /// The position of the next frame.
    pub position: int,
}

/// Whether a state counts as speech.
pub open spec fn speaking(state: VadState) -> bool {
    state == VadState::Speech || state == VadState::PossibleSpeech
}

/// The split point of a pause from `start` to `end`, where it is long enough:
/// its middle.
pub open spec fn with_pause(points: Seq<int>, start: int, end: int, min: int) -> Seq<int> {
    if end - start >= min {
        points.push(start + (end - start) / 2)
    } else {
        points
    }
}

/// The search after one more frame. A frame the model failed on tells nothing.
pub open spec fn after_pause_frame(m: PauseModel, min: int, state: Option<VadState>) -> PauseModel {
    let moved = PauseModel { position: m.position + PAUSE_HOP, ..m };
    match state {
        None => moved,
        Some(s) => if m.was_speaking && !speaking(s) {
            PauseModel { pause_start: Some(m.position), was_speaking: false, ..moved }
        } else if !m.was_speaking && speaking(s) {
            PauseModel {
                points: match m.pause_start {
                    Some(start) => with_pause(m.points, start, m.position, min),
                    None => m.points,
                },
                pause_start: None,
                was_speaking: true,
                ..moved
            }
        } else {
            moved
        },
    }
}

/// The split points, with a pause that the recording ends in.
pub open spec fn pauses_found(m: PauseModel, min: int) -> Seq<int> {
    match m.pause_start {
        Some(start) => with_pause(m.points, start, m.position, min),
        None => m.points,
    }
}

/// Detector and search after the first `k` frames of a recording.
pub open spec fn pause_search<P, S>(
    cfg: VadConfig<P>,
    samples: Seq<S>,
    verdicts: Seq<Option<FrameVerdict>>,
    min: int,
    k: nat,
) -> (VadModel<S>, PauseModel)
    decreases k,
{
    if k == 0 {
        (
            fresh_vad(),
            PauseModel { points: seq![], was_speaking: false, pause_start: None, position: 0 },
        )
    } else {
        let (vad, search) = pause_search(cfg, samples, verdicts, min, (k - 1) as nat);
        match verdicts[k - 1] {
            Some(v) => {
                let next = after_frame(
                    cfg,
                    vad,
                    frame_at(samples, k - 1),
                    PAUSE_HOP as int,
                    v,
                );
                (next, after_pause_frame(search, min, Some(next.state)))
            },
            None => (vad, after_pause_frame(search, min, None)),
        }
    }
}

/// The split points of a recording.
pub open spec fn pause_points<P, S>(
    cfg: VadConfig<P>,
    samples: Seq<S>,
    verdicts: Seq<Option<FrameVerdict>>,
    sample_rate: int,
) -> Seq<int> {
    let min = sample_rate * MIN_PAUSE_MILLIS / 1000;
    pauses_found(
        pause_search(cfg, samples, verdicts, min, frame_count(samples.len() as int) as nat).1,
        min,
    )
}

/// Positions as integers.
pub open spec fn positions(v: Seq<usize>) -> Seq<int> {
    v.map_values(|p: usize| p as int)
}

/// How many frames a recording of `len` samples has.
pub fn pause_frame_count(len: usize) -> (r: usize)
    ensures
        r == frame_count(len as int),
{
    if len < PAUSE_FRAME_SIZE {
        0
    } else {
        (len - PAUSE_FRAME_SIZE) / PAUSE_HOP + 1
    }
}

/// The `k`-th frame of a recording, for the model to judge.
pub fn pause_frame<S: Copy>(samples: &[S], k: usize) -> (r: Vec<S>)
    requires
        k < frame_count(samples@.len() as int),
    ensures
        r@ == frame_at(samples@, k as int),
{
    let len: usize = samples.len();
    assert(k * PAUSE_HOP + PAUSE_FRAME_SIZE <= len);
    copy_range(samples, k * PAUSE_HOP, k * PAUSE_HOP + PAUSE_FRAME_SIZE)
}

fn push_pause(points: &mut Vec<usize>, start: usize, end: usize, min: usize)
    requires
        start <= end,
    ensures
        positions(final(points)@) == with_pause(
            positions(old(points)@),
            start as int,
            end as int,
            min as int,
        ),
{
    let duration: usize = end - start;
    if duration >= min {
        let ghost before = positions(points@);
        let middle: usize = start + duration / 2;
        points.push(middle);
        assert(positions(points@) =~= before.push(middle as int));
    }
}

/// Finds natural pauses in a recording, given what the model said of its
/// frames in turn (nothing where it failed). The result is where to split.
pub fn find_pause_points<P, S: Copy>(
    config: VadConfig<P>,
    samples: &[S],
    sample_rate: usize,
    verdicts: &[Option<FrameVerdict>],
) -> (r: Vec<usize>)
    requires
        config.valid(),
        samples@.len() <= usize::MAX / 8,
        verdicts@.len() == frame_count(samples@.len() as int),
        sample_rate * MIN_PAUSE_MILLIS <= usize::MAX,
    ensures
        positions(r@) == pause_points(config, samples@, verdicts@, sample_rate as int),
{
    let min: usize = (sample_rate * MIN_PAUSE_MILLIS) / 1000;
    let mut vad = SileroVad::<P, S>::new(config);
    let mut points: Vec<usize> = Vec::new();
    let mut was_speaking = false;
    let mut pause_start: Option<usize> = None;
    let mut position: usize = 0;
    let mut k: usize = 0;
    let count: usize = verdicts.len();
    assert(positions(points@) =~= seq![]);
    while k < count
        invariant
            k <= count == verdicts@.len(),
            count == frame_count(samples@.len() as int),
            samples@.len() <= usize::MAX / 8,
            min == sample_rate * MIN_PAUSE_MILLIS / 1000,
            position == k * PAUSE_HOP,
            position <= samples@.len(),
            vad.wf(),
            vad.cfg() == config,
            vad@.current_time <= k * PAUSE_FRAME_SIZE,
            pause_start is Some ==> pause_start->0 <= position,
            ({
                let (v, search) = pause_search(config, samples@, verdicts@, min as int, k as nat);
                &&& vad@ == v
                &&& positions(points@) == search.points
                &&& was_speaking == search.was_speaking
                &&& search.position == position
                &&& search.pause_start == (match pause_start {
                    Some(p) => Some(p as int),
                    None => None,
                })
            }),
        decreases count - k,
    {
        if let Some(verdict) = verdicts[k] {
            let frame = pause_frame(samples, k);
            let state = vad.process_frame(frame.as_slice(), PAUSE_HOP, verdict);
            let now_speaking = matches!(state, VadState::Speech | VadState::PossibleSpeech);
            if was_speaking && !now_speaking {
                pause_start = Some(position);
            }
            if !was_speaking && now_speaking {
                if let Some(start) = pause_start {
                    push_pause(&mut points, start, position, min);
                }
                pause_start = None;
            }
            was_speaking = now_speaking;
        }
        position += PAUSE_HOP;
        k += 1;
    }
    if let Some(start) = pause_start {
        push_pause(&mut points, start, position, min);
    }
    points
}

proof fn lemma_search_positions<P, S>(
    cfg: VadConfig<P>,
    samples: Seq<S>,
    verdicts: Seq<Option<FrameVerdict>>,
    min: int,
    k: nat,
)
    requires
        min >= 0,
    ensures
        ({
            let search = pause_search(cfg, samples, verdicts, min, k).1;
            &&& search.position == k * PAUSE_HOP
            &&& search.pause_start is Some ==> 0 <= search.pause_start->0 < search.position
            &&& forall|i: int|
                0 <= i < search.points.len() ==> 0 <= #[trigger] search.points[i]
                    <= search.position
        }),
    decreases k,
{
    if k > 0 {
        lemma_search_positions(cfg, samples, verdicts, min, (k - 1) as nat);
    }
}

/// Every split point lies within the recording.
pub proof fn law_pauses_lie_within<P, S>(
    cfg: VadConfig<P>,
    samples: Seq<S>,
    verdicts: Seq<Option<FrameVerdict>>,
    sample_rate: int,
)
    requires
        sample_rate >= 0,
    ensures
        forall|i: int|
            0 <= i < pause_points(cfg, samples, verdicts, sample_rate).len() ==> 0
                <= #[trigger] pause_points(cfg, samples, verdicts, sample_rate)[i]
                <= samples.len(),
{
    let min = sample_rate * MIN_PAUSE_MILLIS / 1000;
    let n = frame_count(samples.len() as int) as nat;
    lemma_search_positions(cfg, samples, verdicts, min, n);
    assert(n * PAUSE_HOP <= samples.len());
}

/// A recording in which no frame starts speech has no split points.
pub proof fn law_silence_has_no_pauses<P, S>(
    cfg: VadConfig<P>,
    samples: Seq<S>,
    verdicts: Seq<Option<FrameVerdict>>,
    sample_rate: int,
)
    requires
        cfg.valid(),
        forall|i: int|
            0 <= i < frame_count(samples.len() as int) ==> (#[trigger] verdicts[i] matches Some(v)
                ==> !v.raw_starts),
    ensures
        pause_points(cfg, samples, verdicts, sample_rate).len() == 0,
{
    let min = sample_rate * MIN_PAUSE_MILLIS / 1000;
    let n = frame_count(samples.len() as int);
    lemma_silent_search(cfg, samples, verdicts, min, n, n as nat);
}

proof fn lemma_silent_search<P, S>(
    cfg: VadConfig<P>,
    samples: Seq<S>,
    verdicts: Seq<Option<FrameVerdict>>,
    min: int,
    n: int,
    k: nat,
)
    requires
        cfg.valid(),
        k <= n,
        forall|i: int|
            0 <= i < n ==> (#[trigger] verdicts[i] matches Some(v) ==> !v.raw_starts),
    ensures
        ({
            let (vad, search) = pause_search(cfg, samples, verdicts, min, k);
            &&& vad.state == VadState::Silence
            &&& !search.was_speaking
            &&& search.pause_start is None
            &&& search.points.len() == 0
        }),
    decreases k,
{
    if k > 0 {
        lemma_silent_search(cfg, samples, verdicts, min, n, (k - 1) as nat);
        assert(verdicts[k - 1] matches Some(v) ==> !v.raw_starts);
    }
}

/// The search after several frames, given the detector's state after each, and
/// nothing where the model failed.
pub open spec fn pause_run(m: PauseModel, min: int, states: Seq<Option<VadState>>) -> PauseModel
    decreases states.len(),
{
    if states.len() == 0 {
        m
    } else {
        after_pause_frame(pause_run(m, min, states.drop_last()), min, states.last())
    }
}

/// Whether none of the states counts as speech.
pub open spec fn all_quiet(states: Seq<Option<VadState>>) -> bool {
    forall|i: int|
        0 <= i < states.len() ==> (#[trigger] states[i] matches Some(s) ==> s == VadState::Silence
            || s == VadState::PossibleSilence)
}

/// Whether all of the states count as speech.
pub open spec fn all_speaking(states: Seq<Option<VadState>>) -> bool {
    forall|i: int|
        0 <= i < states.len() ==> (#[trigger] states[i] matches Some(s) ==> s == VadState::Speech
            || s == VadState::PossibleSpeech)
}

proof fn lemma_quiet_run(m: PauseModel, min: int, states: Seq<Option<VadState>>)
    requires
        m.was_speaking,
        states.len() > 0,
        states[0] is Some,
        all_quiet(states),
    ensures
        pause_run(m, min, states) == (PauseModel {
            points: m.points,
            was_speaking: false,
            pause_start: Some(m.position),
            position: m.position + 160 * states.len(),
        }),
    decreases states.len(),
{
    let head = states.drop_last();
    assert(states[states.len() - 1] == states.last());
    if head.len() > 0 {
        assert forall|i: int| 0 <= i < head.len() implies (#[trigger] head[i] matches Some(s)
            ==> s == VadState::Silence || s == VadState::PossibleSilence) by {
            assert(head[i] == states[i]);
        }
        lemma_quiet_run(m, min, head);
    } else {
        assert(pause_run(m, min, head) == m);
    }
}

/// A pause between two stretches of speech is split in its middle where it lasts
/// long enough, and not at all where it does not; a frame that the model failed
/// on does not break it.
pub proof fn law_pauses_are_split_in_the_middle(
    m: PauseModel,
    min: int,
    quiet: Seq<Option<VadState>>,
    back: VadState,
)
    requires
        m.was_speaking,
        quiet.len() > 0,
        quiet[0] is Some,
        all_quiet(quiet),
        back == VadState::Speech || back == VadState::PossibleSpeech,
    ensures
        ({
            let length = 160 * quiet.len();
            let found = if length >= min {
                m.points.push(m.position + length / 2)
            } else {
                m.points
            };
            &&& pause_run(m, min, quiet.push(Some(back))).points == found
            &&& pause_run(m, min, quiet.push(Some(back))).was_speaking
            &&& pause_run(m, min, quiet.push(Some(back))).pause_start is None
            &&& pauses_found(pause_run(m, min, quiet), min) == found
        }),
{
    lemma_quiet_run(m, min, quiet);
    assert(quiet.push(Some(back)).drop_last() =~= quiet);
}

/// Speech that goes on has no split points, and neither has the silence before
/// the first speech.
pub proof fn law_only_pauses_are_split(m: PauseModel, min: int, states: Seq<Option<VadState>>)
    requires
        m.pause_start is None,
        if m.was_speaking {
            all_speaking(states)
        } else {
            all_quiet(states)
        },
    ensures
        pause_run(m, min, states) == (PauseModel {
            position: m.position + 160 * states.len(),
            ..m
        }),
        pauses_found(pause_run(m, min, states), min) == m.points,
    decreases states.len(),
{
    if states.len() > 0 {
        let head = states.drop_last();
        assert(states[states.len() - 1] == states.last());
        assert forall|i: int| 0 <= i < head.len() implies #[trigger] head[i] == states[i] by {}
        assert(m.was_speaking ==> all_speaking(head));
        assert(!m.was_speaking ==> all_quiet(head));
        law_only_pauses_are_split(m, min, head);
    }
}

/// The detector after the first `k` frames of a recording: each of 512 samples,
/// the next 160 further on.
pub open spec fn heard_frames<P, S>(
    cfg: VadConfig<P>,
    samples: Seq<S>,
    verdicts: Seq<Option<FrameVerdict>>,
    k: nat,
) -> VadModel<S>
    decreases k,
{
    if k == 0 {
        fresh_vad()
    } else {
        let before = heard_frames(cfg, samples, verdicts, (k - 1) as nat);
        match verdicts[k - 1] {
            Some(v) => after_frame(
                cfg,
                before,
                samples.subrange(160 * (k - 1), 160 * (k - 1) + 512),
                160,
                v,
            ),
            None => before,
        }
    }
}

/// The state after each of the first `k` frames, and nothing where the model
/// failed.
pub open spec fn heard_states<P, S>(
    cfg: VadConfig<P>,
    samples: Seq<S>,
    verdicts: Seq<Option<FrameVerdict>>,
    k: nat,
) -> Seq<Option<VadState>> {
    Seq::new(
        k,
        |i: int|
            if verdicts[i] is Some {
                Some(heard_frames(cfg, samples, verdicts, (i + 1) as nat).state)
            } else {
                None
            },
    )
}

proof fn lemma_search_follows<P, S>(
    cfg: VadConfig<P>,
    samples: Seq<S>,
    verdicts: Seq<Option<FrameVerdict>>,
    min: int,
    k: nat,
)
    ensures
        ({
            let start = PauseModel {
                points: seq![],
                was_speaking: false,
                pause_start: None,
                position: 0,
            };
            pause_search(cfg, samples, verdicts, min, k) == (
                heard_frames(cfg, samples, verdicts, k),
                pause_run(start, min, heard_states(cfg, samples, verdicts, k)),
            )
        }),
    decreases k,
{
    if k > 0 {
        lemma_search_follows(cfg, samples, verdicts, min, (k - 1) as nat);
        assert(heard_states(cfg, samples, verdicts, k).drop_last() =~= heard_states(
            cfg,
            samples,
            verdicts,
            (k - 1) as nat,
        ));
    }
}

/// The pauses of a recording are those of the detector's states, frame by frame
/// to its last full frame, the pause that it ends in among them; a pause counts
/// from 300 ms on.
pub proof fn law_pauses_follow_the_states<P, S>(
    cfg: VadConfig<P>,
    samples: Seq<S>,
    verdicts: Seq<Option<FrameVerdict>>,
    sample_rate: int,
    k: nat,
)
    requires
        sample_rate >= 0,
        k == (if samples.len() < 512 { 0 } else { (samples.len() - 512) / 160 + 1 }),
    ensures
        ({
            let start = PauseModel {
                points: seq![],
                was_speaking: false,
                pause_start: None,
                position: 0,
            };
            let min = sample_rate * 300 / 1000;
            pause_points(cfg, samples, verdicts, sample_rate) == pauses_found(
                pause_run(start, min, heard_states(cfg, samples, verdicts, k)),
                min,
            )
        }),
{
    lemma_search_follows(cfg, samples, verdicts, sample_rate * 300 / 1000, k);
}

} // verus!
