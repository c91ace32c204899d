//! Voice activity detection: the state machine that turns per-frame verdicts
//! of the Silero model into speech segments, and the sample history from which
//! the segments are cut.
//!
//! Positions and durations are counted in samples. The model itself runs
//! outside; each frame is handed out by [`SileroVad::next_frame`] and comes
//! back, with what the model said of it, through [`SileroVad::frame_done`].

use vstd::prelude::*;

use crate::samples::{append_all, append_range, copy_range, drop_front};
use crate::text::strings::opt_view;

verus! {

/// Voice Activity Detection states.
#[derive(Debug, Clone, Copy, PartialEq, Eq, Structural)]
pub enum VadState {
    Silence,
    PossibleSpeech,
    Speech,
    PossibleSilence,
}

/// Audio segment containing speech.
#[derive(Debug, Clone)]
pub struct AudioSegment<S> {
    pub samples: Vec<S>,
    /// Position of the first moment of speech, in samples.
    pub start_time: u64,
    /// Position of the end of speech, in samples.
    pub end_time: u64,
    pub sample_rate: usize,
    /// Session this segment belongs to: "realtime" or a manual session's id.
    pub session_id: Option<String>,
    /// Whether this is a manual recording rather than a detected utterance.
    pub is_manual: bool,
}

/// What an [`AudioSegment`] holds.
#[verifier::ext_equal]
pub struct SegmentModel<S> {
    pub samples: Seq<S>,
    pub start_time: int,
    pub end_time: int,
    pub sample_rate: int,
    pub session_id: Option<Seq<char>>,
    pub is_manual: bool,
}

impl<S> View for AudioSegment<S> {
    type V = SegmentModel<S>;

    open spec fn view(&self) -> SegmentModel<S> {
        SegmentModel {
            samples: self.samples@,
            start_time: self.start_time as int,
            end_time: self.end_time as int,
            sample_rate: self.sample_rate as int,
            session_id: opt_view(self.session_id),
            is_manual: self.is_manual,
        }
    }
}

/// The models of a list of segments.
pub open spec fn segment_views<S>(v: Seq<AudioSegment<S>>) -> Seq<SegmentModel<S>> {
    v.map_values(|s: AudioSegment<S>| s@)
}

/// Configuration for Voice Activity Detection. The thresholds and the
/// smoothing factor, of type `P`, are only carried: frames are judged where
/// the model runs.
#[derive(Debug, Clone)]
pub struct VadConfig<P> {
    /// Probability threshold for speech detection.
    pub threshold: P,
    /// Size of audio frames in samples.
    pub frame_size: usize,
    /// Audio sample rate in Hz.
    pub sample_rate: usize,
    /// Number of frames before confirming speech.
    pub hangbefore_frames: usize,
    /// Number of frames after speech before silence.
    pub hangover_frames: usize,
    /// Number of samples to advance between frames.
    pub hop_samples: usize,
    /// Maximum buffer size in samples.
    pub max_buffer_duration: usize,
    /// Maximum number of segments to keep.
    pub max_segment_count: usize,
    /// Number of non-speech frames to tolerate in PossibleSpeech before giving up.
    pub silence_tolerance_frames: usize,
    /// Lower threshold for speech continuation (hysteresis).
    pub speech_end_threshold: P,
    /// Exponential moving average smoothing factor.
    pub speech_prob_smoothing: P,
}

/// The larger of two integers.
pub open spec fn max_of(a: int, b: int) -> int {
    if a >= b {
        a
    } else {
        b
    }
}

/// The smaller of two integers.
pub open spec fn min_of(a: int, b: int) -> int {
    if a <= b {
        a
    } else {
        b
    }
}

impl<P> VadConfig<P> {
    /// How far before the confirming frame speech is taken to have begun, in
    /// samples: the confirming frame and the hops between it and the first.
    pub open spec fn lookback(self) -> int {
        if self.hangbefore_frames == 0 {
            0
        } else {
            self.frame_size + (self.hangbefore_frames - 1) * max_of(self.hop_samples as int, 1)
        }
    }

    /// The context kept before the onset of speech: a tenth of a second,
    /// rounded up.
    pub open spec fn context(self) -> int {
        (self.sample_rate + 9) / 10
    }

    /// Frames have samples, and the sizes derived from the configuration fit
    /// the machine.
    pub open spec fn valid(self) -> bool {
        &&& self.frame_size > 0
        &&& self.frame_size * 60 <= usize::MAX
        &&& self.max_buffer_duration * 3 <= usize::MAX
        &&& self.lookback() <= usize::MAX
    }

    /// Least number of samples removed when the history grows too large:
    /// a sixth of it or half a second, whichever is more.
    pub open spec fn min_trim(self) -> int {
        let max_buffer = max_of(self.max_buffer_duration as int, 1);
        let sample_rate = max_of(self.sample_rate as int, 1);
        let frame = max_of(self.frame_size as int, 1);
        min_of(
            max_of(max_of(max_buffer / 6, frame), max_of(sample_rate / 2, frame)),
            max_buffer,
        )
    }
}

impl<P> VadConfig<P> {
    /// The default configuration, given the thresholds and the smoothing
    /// factor: 32 ms frames every 10 ms at 16 kHz, speech confirmed after
    /// three frames and ended after twenty, half a minute of history.
    pub fn with_thresholds(threshold: P, speech_end_threshold: P, speech_prob_smoothing: P) -> (r:
        VadConfig<P>)
        ensures
            r == (VadConfig {
                threshold,
                frame_size: 512,
                sample_rate: 16000,
                hangbefore_frames: 3,
                hangover_frames: 20,
                hop_samples: 160,
                max_buffer_duration: 480000,
                max_segment_count: 20,
                silence_tolerance_frames: 5,
                speech_end_threshold,
                speech_prob_smoothing,
            }),
            r.valid(),
    {
        VadConfig {
            threshold,
            frame_size: 512,
            sample_rate: 16000,
            hangbefore_frames: 3,
            hangover_frames: 20,
            hop_samples: 160,
            max_buffer_duration: 480000,
            max_segment_count: 20,
            silence_tolerance_frames: 5,
            speech_end_threshold,
            speech_prob_smoothing,
        }
    }
}

/// Sample rates the Silero model accepts.
#[derive(Debug, Clone, Copy, PartialEq, Eq, Structural)]
pub enum SampleRate {
    EightkHz,
    SixteenkHz,
}

/// The number of samples per second.
pub open spec fn rate_hz(r: SampleRate) -> int {
    match r {
        SampleRate::EightkHz => 8000,
        SampleRate::SixteenkHz => 16000,
    }
}

impl From<SampleRate> for i64 {
    fn from(value: SampleRate) -> (r: i64) {
        match value {
            SampleRate::EightkHz => 8000,
            SampleRate::SixteenkHz => 16000,
        }
    }
}

impl vstd::std_specs::convert::FromSpecImpl<SampleRate> for i64 {
    open spec fn obeys_from_spec() -> bool {
        true
    }

    open spec fn from_spec(value: SampleRate) -> i64 {
        rate_hz(value) as i64
    }
}

impl From<SampleRate> for usize {
    fn from(value: SampleRate) -> (r: usize) {
        match value {
            SampleRate::EightkHz => 8000,
            SampleRate::SixteenkHz => 16000,
        }
    }
}

impl vstd::std_specs::convert::FromSpecImpl<SampleRate> for usize {
    open spec fn obeys_from_spec() -> bool {
        true
    }

    open spec fn from_spec(value: SampleRate) -> usize {
        rate_hz(value) as usize
    }
}

impl From<usize> for SampleRate {
    fn from(value: usize) -> (r: SampleRate) {
        if value == 8000 {
            SampleRate::EightkHz
        } else {
            SampleRate::SixteenkHz
        }
    }
}

impl vstd::std_specs::convert::FromSpecImpl<usize> for SampleRate {
    open spec fn obeys_from_spec() -> bool {
        true
    }

    open spec fn from_spec(value: usize) -> SampleRate {
        if value == 8000 {
            SampleRate::EightkHz
        } else {
            SampleRate::SixteenkHz
        }
    }
}

/// What the model's answer for one frame means against the two thresholds,
/// for the raw probability and for the smoothed one.
#[derive(Debug, Clone, Copy, PartialEq, Eq, Structural)]
pub struct FrameVerdict {
    /// The raw probability exceeds the speech threshold.
    pub raw_starts: bool,
    /// The raw probability exceeds the continuation threshold.
    pub raw_continues: bool,
    /// The smoothed probability exceeds the speech threshold.
    pub smoothed_starts: bool,
    /// The smoothed probability exceeds the continuation threshold.
    pub smoothed_continues: bool,
}

/// Everything a [`SileroVad`] keeps between frames.
#[verifier::ext_equal]
pub struct VadModel<S> {
    pub state: VadState,
    pub frames_in_state: int,
    pub silence_frames: int,
    /// Position of the next sample to be heard.
    pub current_time: int,
    /// Position of the first sample of the history.
    pub time_offset: int,
    pub speech_start_time: Option<int>,
    /// The history: the latest samples heard.
    pub heard: Seq<S>,
    pub speeches: Seq<SegmentModel<S>>,
    /// Samples received and not yet framed.
    pub pending: Seq<S>,
    pub frame_counter: int,
    pub samples_since_trim: int,
}

/// One transition of the state machine.
pub struct VadStep {
    pub state: VadState,
    pub frames_in_state: int,
    pub silence_frames: int,
    /// Speech was confirmed.
    pub confirmed: bool,
    /// Speech ended.
    pub ended: bool,
}

/// The state machine: where a frame that starts or continues speech leads
/// from a state in which `frames` frames were spent.
pub open spec fn vad_step<P>(
    cfg: VadConfig<P>,
    state: VadState,
    frames: int,
    silence: int,
    starts: bool,
    continues: bool,
) -> VadStep {
    let stay = VadStep {
        state,
        frames_in_state: frames,
        silence_frames: silence,
        confirmed: false,
        ended: false,
    };
    match state {
        VadState::Silence => if starts {
            VadStep { state: VadState::PossibleSpeech, frames_in_state: 1, ..stay }
        } else {
            stay
        },
        VadState::PossibleSpeech => if starts {
            if frames + 1 >= cfg.hangbefore_frames {
                VadStep {
                    state: VadState::Speech,
                    frames_in_state: 0,
                    silence_frames: 0,
                    confirmed: true,
                    ended: false,
                }
            } else {
                VadStep { frames_in_state: frames + 1, silence_frames: 0, ..stay }
            }
        } else if continues {
            VadStep { silence_frames: 0, ..stay }
        } else if silence + 1 >= cfg.silence_tolerance_frames {
            VadStep { state: VadState::Silence, frames_in_state: 0, silence_frames: 0, ..stay }
        } else {
            VadStep { silence_frames: silence + 1, ..stay }
        },
        VadState::Speech => if continues {
            stay
        } else {
            VadStep { state: VadState::PossibleSilence, frames_in_state: 1, ..stay }
        },
        VadState::PossibleSilence => if continues {
            VadStep { state: VadState::Speech, frames_in_state: 0, ..stay }
        } else if frames + 1 >= cfg.hangover_frames {
            VadStep { state: VadState::Silence, frames_in_state: 0, ended: true, ..stay }
        } else {
            VadStep { frames_in_state: frames + 1, ..stay }
        },
    }
}

/// The state machine after `n` frames that are all judged alike.
pub open spec fn vad_run<P>(
    cfg: VadConfig<P>,
    from: VadStep,
    starts: bool,
    continues: bool,
    n: nat,
) -> VadStep
    decreases n,
{
    if n == 0 {
        from
    } else {
        let before = vad_run(cfg, from, starts, continues, (n - 1) as nat);
        vad_step(
            cfg,
            before.state,
            before.frames_in_state,
            before.silence_frames,
            starts,
            continues,
        )
    }
}

/// Out of silence, frames that start speech confirm it with the
/// `hangbefore_frames`-th of them, not before.
pub proof fn law_confirmation_takes_hangbefore_frames<P>(
    cfg: VadConfig<P>,
    from: VadStep,
    continues: bool,
    n: nat,
)
    requires
        cfg.hangbefore_frames >= 2,
        from.state == VadState::Silence,
        1 <= n <= cfg.hangbefore_frames,
    ensures
        ({
            let end = vad_run(cfg, from, true, continues, n);
            if n < cfg.hangbefore_frames {
                end.state == VadState::PossibleSpeech && !end.confirmed && end.frames_in_state == n
            } else {
                end.state == VadState::Speech && end.confirmed
            }
        }),
    decreases n,
{
    reveal_with_fuel(vad_run, 2);
    if n > 1 {
        law_confirmation_takes_hangbefore_frames(cfg, from, continues, (n - 1) as nat);
    }
}

/// In speech, frames that do not continue it end it with the
/// `hangover_frames`-th of them, not before.
pub proof fn law_speech_ends_after_hangover_frames<P>(
    cfg: VadConfig<P>,
    from: VadStep,
    starts: bool,
    n: nat,
)
    requires
        cfg.hangover_frames >= 2,
        from.state == VadState::Speech,
        1 <= n <= cfg.hangover_frames,
    ensures
        ({
            let end = vad_run(cfg, from, starts, false, n);
            if n < cfg.hangover_frames {
                end.state == VadState::PossibleSilence && !end.ended && end.frames_in_state == n
            } else {
                end.state == VadState::Silence && end.ended
            }
        }),
    decreases n,
{
    reveal_with_fuel(vad_run, 2);
    if n > 1 {
        law_speech_ends_after_hangover_frames(cfg, from, starts, (n - 1) as nat);
    }
}

/// Suspected speech is given up with the `silence_tolerance_frames`-th frame
/// below both thresholds, not before.
pub proof fn law_suspicion_tolerates_silence_frames<P>(
    cfg: VadConfig<P>,
    from: VadStep,
    n: nat,
)
    requires
        cfg.silence_tolerance_frames >= 1,
        from.state == VadState::PossibleSpeech,
        from.silence_frames == 0,
        1 <= n <= cfg.silence_tolerance_frames,
    ensures
        ({
            let end = vad_run(cfg, from, false, false, n);
            if n < cfg.silence_tolerance_frames {
                end.state == VadState::PossibleSpeech && end.silence_frames == n
            } else {
                end.state == VadState::Silence && !end.ended
            }
        }),
    decreases n,
{
    reveal_with_fuel(vad_run, 2);
    if n > 1 {
        law_suspicion_tolerates_silence_frames(cfg, from, (n - 1) as nat);
    }
}

/// The samples of the history from `start`, with context before it, to `end`.
pub open spec fn speech_samples<P, S>(
    cfg: VadConfig<P>,
    m: VadModel<S>,
    start: int,
    end: int,
) -> Seq<S> {
    let len = m.heard.len() as int;
    let from = min_of(max_of(start - m.time_offset - cfg.context(), 0), len);
    let to = min_of(max_of(end - m.time_offset, 0), len);
    if from >= to {
        Seq::empty()
    } else {
        m.heard.subrange(from, to)
    }
}

/// The segment from `start` to `end`.
pub open spec fn segment_between<P, S>(
    cfg: VadConfig<P>,
    m: VadModel<S>,
    start: int,
    end: int,
) -> SegmentModel<S> {
    SegmentModel {
        samples: speech_samples(cfg, m, start, end),
        start_time: start,
        end_time: end,
        sample_rate: cfg.sample_rate as int,
        session_id: None,
        is_manual: false,
    }
}

/// The segment from `start` to the present.
pub open spec fn speech_segment<P, S>(
    cfg: VadConfig<P>,
    m: VadModel<S>,
    start: int,
) -> SegmentModel<S> {
    segment_between(cfg, m, start, m.current_time)
}

/// `speeches` with a non-empty segment added, the oldest dropped when there
/// are more than `max`.
pub open spec fn with_segment<S>(
    speeches: Seq<SegmentModel<S>>,
    segment: SegmentModel<S>,
    max: int,
) -> Seq<SegmentModel<S>> {
    if segment.samples.len() == 0 {
        speeches
    } else if speeches.len() + 1 > max {
        speeches.push(segment).skip(1)
    } else {
        speeches.push(segment)
    }
}

/// The open segment, if any, is closed at the present and queued.
pub open spec fn after_speech_end<P, S>(cfg: VadConfig<P>, m: VadModel<S>) -> VadModel<S> {
    match m.speech_start_time {
        Some(start) => VadModel {
            speech_start_time: None,
            speeches: with_segment(
                m.speeches,
                speech_segment(cfg, m, start),
                cfg.max_segment_count as int,
            ),
            ..m
        },
        None => m,
    }
}

/// The state machine takes in one verdict.
pub open spec fn after_verdict<P, S>(
    cfg: VadConfig<P>,
    m: VadModel<S>,
    v: FrameVerdict,
) -> VadModel<S> {
    let onset = m.state == VadState::Silence;
    let starts = if onset { v.raw_starts } else { v.smoothed_starts };
    let continues = if onset { v.raw_continues } else { v.smoothed_continues };
    let t = vad_step(cfg, m.state, m.frames_in_state, m.silence_frames, starts, continues);
    let moved = VadModel {
        state: t.state,
        frames_in_state: t.frames_in_state,
        silence_frames: t.silence_frames,
        ..m
    };
    if t.confirmed {
        VadModel {
            speech_start_time: Some(max_of(m.current_time - cfg.lookback(), 0)),
            ..moved
        }
    } else if t.ended {
        after_speech_end(cfg, moved)
    } else {
        moved
    }
}

/// The first `n` samples of the history are forgotten. Speech that began
/// before their end is queued up to there, as a segment of its own, and goes
/// on from there.
pub open spec fn after_trim<P, S>(cfg: VadConfig<P>, m: VadModel<S>, n: int) -> VadModel<S> {
    let offset = m.time_offset + n;
    let shortened = VadModel { time_offset: offset, heard: m.heard.skip(n), ..m };
    match m.speech_start_time {
        Some(start) if start < offset => VadModel {
            speech_start_time: Some(offset),
            speeches: with_segment(
                m.speeches,
                segment_between(cfg, m, start, offset),
                cfg.max_segment_count as int,
            ),
            ..shortened
        },
        _ => shortened,
    }
}

/// The history is cut where it exceeds the maximum.
pub open spec fn after_overflow_trim<P, S>(cfg: VadConfig<P>, m: VadModel<S>) -> VadModel<S> {
    let len = m.heard.len() as int;
    if len <= cfg.max_buffer_duration {
        m
    } else {
        let n = min_of(max_of(len - cfg.max_buffer_duration, cfg.min_trim()), len);
        VadModel { samples_since_trim: 0, ..after_trim(cfg, m, n) }
    }
}

/// How many samples of a frame are new.
pub open spec fn new_samples<S>(m: VadModel<S>, frame: Seq<S>, hop: int) -> int {
    if m.heard.len() == 0 {
        frame.len() as int
    } else {
        min_of(hop, frame.len() as int)
    }
}

/// How often, in frames, the size of the history is checked.
pub const BUFFER_CHECK_INTERVAL: usize = 30;

/// How many frames' worth of new samples bring about a proactive trim.
pub const TRIM_INTERVAL_FRAMES: usize = 60;

/// A verdict has been taken in, and the samples `new` have been heard with it.
pub open spec fn after_hearing<P, S>(
    cfg: VadConfig<P>,
    m: VadModel<S>,
    new: Seq<S>,
    v: FrameVerdict,
) -> VadModel<S> {
    let judged = after_verdict(cfg, m, v);
    let advanced = VadModel {
        current_time: judged.current_time + new.len(),
        heard: judged.heard + new,
        samples_since_trim: judged.samples_since_trim + new.len(),
        ..judged
    };
    if m.frame_counter + 1 >= BUFFER_CHECK_INTERVAL {
        after_overflow_trim(cfg, VadModel { frame_counter: 0, ..advanced })
    } else {
        VadModel { frame_counter: m.frame_counter + 1, ..advanced }
    }
}

/// A frame with its verdict has been taken in: its last samples, as many as it
/// advances by, are new.
pub open spec fn after_frame<P, S>(
    cfg: VadConfig<P>,
    m: VadModel<S>,
    frame: Seq<S>,
    hop: int,
    v: FrameVerdict,
) -> VadModel<S> {
    after_hearing(cfg, m, frame.skip(frame.len() - new_samples(m, frame, hop)), v)
}

/// The frame to be judged next: the first `frame_size` pending samples; or,
/// when fewer are pending but at least an eighth of a frame, those filled up
/// with `zero`. With it comes how many samples it advances by. What fills up a
/// partial frame is there for the model alone: it is never heard.
pub open spec fn frame_to_judge<P, S>(cfg: VadConfig<P>, m: VadModel<S>, zero: S) -> Option<
    (Seq<S>, int),
> {
    let size = cfg.frame_size as int;
    let len = m.pending.len() as int;
    if len >= size {
        Some((m.pending.take(size), min_of(max_of(cfg.hop_samples as int, 1), size)))
    } else if len > 0 && len >= size / 8 {
        Some((m.pending + Seq::new((size - len) as nat, |i: int| zero), len))
    } else {
        None
    }
}

/// The pending samples after a frame was judged: a full frame advances by its
/// hop, a partial one uses up what was pending.
pub open spec fn pending_after<P, S>(cfg: VadConfig<P>, pending: Seq<S>, hop: int) -> Seq<S> {
    if pending.len() >= cfg.frame_size {
        pending.skip(hop)
    } else {
        Seq::empty()
    }
}

/// The frame to be judged next has been taken in with its verdict. Of a full
/// frame the part that it advances by is heard; of a partial one the samples that
/// were pending, all of them and nothing else.
pub open spec fn after_next_frame<P, S>(
    cfg: VadConfig<P>,
    m: VadModel<S>,
    frame: Seq<S>,
    hop: int,
    v: FrameVerdict,
) -> VadModel<S> {
    let judged = if m.pending.len() >= cfg.frame_size {
        after_frame(cfg, m, frame, hop, v)
    } else {
        after_hearing(cfg, m, m.pending, v)
    };
    VadModel { pending: pending_after(cfg, m.pending, hop), ..judged }
}

/// At the end of a batch: once enough has been heard since the last trim, a
/// history above three quarters of its maximum is cut to half of it.
pub open spec fn after_batch_trim<P, S>(cfg: VadConfig<P>, m: VadModel<S>) -> VadModel<S> {
    if m.samples_since_trim >= cfg.frame_size * TRIM_INTERVAL_FRAMES {
        let fresh = VadModel { samples_since_trim: 0, ..m };
        if m.heard.len() > cfg.max_buffer_duration * 3 / 4 {
            after_trim(cfg, fresh, m.heard.len() - cfg.max_buffer_duration / 2)
        } else {
            fresh
        }
    } else {
        m
    }
}

/// The start: nothing heard, silence.
pub open spec fn fresh_vad<S>() -> VadModel<S> {
    VadModel {
        state: VadState::Silence,
        frames_in_state: 0,
        silence_frames: 0,
        current_time: 0,
        time_offset: 0,
        speech_start_time: None,
        heard: Seq::empty(),
        speeches: Seq::empty(),
        pending: Seq::empty(),
        frame_counter: 0,
        samples_since_trim: 0,
    }
}

/// A batch taken in frame by frame, as far as there are verdicts: how many
/// frames were judged, and the detector after them.
pub open spec fn after_frames<P, S>(
    cfg: VadConfig<P>,
    m: VadModel<S>,
    zero: S,
    verdicts: Seq<FrameVerdict>,
) -> (int, VadModel<S>)
    decreases verdicts.len(),
{
    match frame_to_judge(cfg, m, zero) {
        Some((frame, hop)) => if verdicts.len() == 0 {
            (0, m)
        } else {
            let next = after_next_frame(cfg, m, frame, hop, verdicts[0]);
            let (n, end) = after_frames(cfg, next, zero, verdicts.skip(1));
            (n + 1, end)
        },
        None => (0, m),
    }
}

/// What holds of a detector at all times.
pub open spec fn vad_invariant<P, S>(cfg: VadConfig<P>, m: VadModel<S>) -> bool {
    &&& cfg.valid()
    &&& 0 <= m.frames_in_state
    &&& m.state == VadState::PossibleSpeech ==> m.frames_in_state < max_of(
        cfg.hangbefore_frames as int,
        2,
    )
    &&& m.state == VadState::PossibleSilence ==> m.frames_in_state < max_of(
        cfg.hangover_frames as int,
        2,
    )
    &&& 0 <= m.silence_frames < max_of(cfg.silence_tolerance_frames as int, 1)
    // The history is the stretch from its offset to the present.
    &&& 0 <= m.time_offset
    &&& m.time_offset + m.heard.len() == m.current_time
    &&& 0 <= m.samples_since_trim <= m.current_time
    &&& m.speech_start_time is Some ==> 0 <= m.speech_start_time->0 <= m.current_time
    &&& 0 <= m.frame_counter < BUFFER_CHECK_INTERVAL
    &&& m.speeches.len() <= cfg.max_segment_count
}

/// A frame leaves the invariant standing.
pub proof fn law_frame_keeps_invariant<P, S>(
    cfg: VadConfig<P>,
    m: VadModel<S>,
    frame: Seq<S>,
    hop: int,
    v: FrameVerdict,
)
    requires
        vad_invariant(cfg, m),
        hop >= 0,
    ensures
        vad_invariant(cfg, after_frame(cfg, m, frame, hop, v)),
{
}

/// Silence that no frame breaks queues nothing and opens no segment.
pub proof fn law_silence_opens_nothing<P, S>(cfg: VadConfig<P>, m: VadModel<S>, v: FrameVerdict)
    requires
        m.state == VadState::Silence,
        !v.raw_starts,
    ensures
        after_verdict(cfg, m, v) == m,
{
}

/// A closed segment runs up to the latest sample heard, and holds every sample
/// of the history from its start on, with up to a tenth of a second before it.
pub proof fn law_segment_runs_to_the_present<P, S>(cfg: VadConfig<P>, m: VadModel<S>, start: int)
    requires
        vad_invariant(cfg, m),
        m.time_offset <= start < m.current_time,
    ensures
        ({
            let segment = speech_segment(cfg, m, start);
            let from = max_of(start - m.time_offset - cfg.context(), 0);
            &&& segment.end_time == m.current_time
            &&& segment.samples == m.heard.skip(from)
            &&& segment.samples.len() >= m.current_time - start
            &&& segment.samples.len() <= m.current_time - start + cfg.context()
        }),
{
    let from = max_of(start - m.time_offset - cfg.context(), 0);
    assert(m.heard.subrange(from, m.heard.len() as int) == m.heard.skip(from));
}

/// Forgetting old samples keeps the latest ones, and keeps the history lined
/// up with the present.
pub proof fn law_trim_keeps_the_latest<P, S>(cfg: VadConfig<P>, m: VadModel<S>, n: int)
    requires
        vad_invariant(cfg, m),
        0 <= n <= m.heard.len(),
    ensures
        ({
            let t = after_trim(cfg, m, n);
            &&& vad_invariant(cfg, t)
            &&& t.current_time == m.current_time
            &&& forall|i: int| 0 <= i < t.heard.len() ==> t.heard[i] == m.heard[i + n]
        }),
{
}

/// No sample of running speech leaves the history without being queued: the
/// sample at position `p`, heard since the speech began and forgotten now,
/// stands in the segment queued last. What remains of the speech begins where
/// that segment ends. A queue without room for a segment can keep none.
pub proof fn law_trim_queues_running_speech<P, S>(
    cfg: VadConfig<P>,
    m: VadModel<S>,
    n: int,
    start: int,
    p: int,
)
    requires
        vad_invariant(cfg, m),
        0 <= n <= m.heard.len(),
        m.speech_start_time == Some(start),
        start <= p,
        m.time_offset <= p < m.time_offset + n,
        cfg.max_segment_count >= 1,
    ensures
        ({
            let t = after_trim(cfg, m, n);
            let from = max_of(start - m.time_offset - cfg.context(), 0);
            let segment = t.speeches.last();
            &&& t.speeches.len() >= 1
            &&& segment.start_time == start
            &&& segment.end_time == t.time_offset
            &&& segment.samples == m.heard.subrange(from, n)
            &&& 0 <= p - m.time_offset - from < segment.samples.len()
            &&& segment.samples[p - m.time_offset - from] == m.heard[p - m.time_offset]
            &&& t.speech_start_time == Some(t.time_offset)
        }),
{
}

/// Speech that began after what is forgotten stays whole: nothing is queued,
/// and its start stays where it was.
pub proof fn law_trim_spares_later_speech<P, S>(cfg: VadConfig<P>, m: VadModel<S>, n: int)
    requires
        m.speech_start_time matches Some(start) ==> start >= m.time_offset + n,
    ensures
        after_trim(cfg, m, n).speeches == m.speeches,
        after_trim(cfg, m, n).speech_start_time == m.speech_start_time,
{
}

/// The transitions that one verdict makes. Out of silence the raw probability
/// leads to suspected speech; confirmed speech turns to suspected silence with
/// the smoothed one; suspicion of speech and suspicion of silence never lead to
/// each other; and a segment is queued only where suspected silence becomes
/// silence.
pub proof fn law_transitions<P, S>(cfg: VadConfig<P>, m: VadModel<S>, v: FrameVerdict)
    ensures
        ({
            let after = after_verdict(cfg, m, v);
            &&& m.state == VadState::Silence ==> after.state == (if v.raw_starts {
                VadState::PossibleSpeech
            } else {
                VadState::Silence
            })
            &&& m.state == VadState::Speech ==> after.state == (if v.smoothed_continues {
                VadState::Speech
            } else {
                VadState::PossibleSilence
            })
            &&& m.state == VadState::PossibleSpeech ==> after.state != VadState::PossibleSilence
            &&& m.state == VadState::PossibleSpeech && v.smoothed_starts ==> after.state == (
            if m.frames_in_state + 1 >= cfg.hangbefore_frames {
                VadState::Speech
            } else {
                VadState::PossibleSpeech
            })
            &&& m.state == VadState::PossibleSpeech && !v.smoothed_starts && v.smoothed_continues
                ==> after.state == VadState::PossibleSpeech && after.frames_in_state
                == m.frames_in_state && after.silence_frames == 0
            &&& m.state == VadState::PossibleSpeech && !v.smoothed_starts
                && !v.smoothed_continues ==> after.state == (if m.silence_frames + 1
                >= cfg.silence_tolerance_frames {
                VadState::Silence
            } else {
                VadState::PossibleSpeech
            })
            &&& m.state == VadState::PossibleSilence ==> after.state == (
            if v.smoothed_continues {
                VadState::Speech
            } else if m.frames_in_state + 1 >= cfg.hangover_frames {
                VadState::Silence
            } else {
                VadState::PossibleSilence
            })
            &&& m.state == VadState::PossibleSilence && v.smoothed_continues ==> after.speeches
                == m.speeches && after.speech_start_time == m.speech_start_time
            &&& after.speeches != m.speeches ==> m.state == VadState::PossibleSilence
                && after.state == VadState::Silence
        }),
{
}

/// The detector after several verdicts in turn.
pub open spec fn after_verdicts<P, S>(
    cfg: VadConfig<P>,
    m: VadModel<S>,
    vs: Seq<FrameVerdict>,
) -> VadModel<S>
    decreases vs.len(),
{
    if vs.len() == 0 {
        m
    } else {
        after_verdict(cfg, after_verdicts(cfg, m, vs.drop_last()), vs.last())
    }
}

/// How many of the latest verdicts, without a break, do not continue speech.
pub open spec fn quiet_run(vs: Seq<FrameVerdict>) -> nat
    decreases vs.len(),
{
    if vs.len() == 0 || vs.last().smoothed_continues {
        0
    } else {
        quiet_run(vs.drop_last()) + 1
    }
}

proof fn lemma_suspicion_is_a_quiet_run<P, S>(
    cfg: VadConfig<P>,
    m: VadModel<S>,
    vs: Seq<FrameVerdict>,
)
    requires
        m.state != VadState::PossibleSilence,
    ensures
        after_verdicts(cfg, m, vs).state == VadState::PossibleSilence ==> after_verdicts(
            cfg,
            m,
            vs,
        ).frames_in_state <= quiet_run(vs),
    decreases vs.len(),
{
    if vs.len() > 0 {
        lemma_suspicion_is_a_quiet_run(cfg, m, vs.drop_last());
    }
}

/// Speech is ended only by frames that do not continue it, `hangover_frames` of
/// them in a row and at least two: whatever came before, no segment is queued
/// and no silence follows speech with fewer.
pub proof fn law_only_a_quiet_run_ends_speech<P, S>(
    cfg: VadConfig<P>,
    m: VadModel<S>,
    vs: Seq<FrameVerdict>,
)
    requires
        m.state != VadState::PossibleSilence,
        vs.len() > 0,
    ensures
        ({
            let before = after_verdicts(cfg, m, vs.drop_last());
            let after = after_verdicts(cfg, m, vs);
            after.speeches != before.speeches || ((before.state == VadState::Speech || before.state
                == VadState::PossibleSilence) && after.state == VadState::Silence) ==> quiet_run(vs)
                >= max_of(cfg.hangover_frames as int, 2)
        }),
{
    lemma_suspicion_is_a_quiet_run(cfg, m, vs.drop_last());
    let before = after_verdicts(cfg, m, vs.drop_last());
    lemma_suspicion_counts(cfg, m, vs.drop_last());
}

proof fn lemma_suspicion_counts<P, S>(cfg: VadConfig<P>, m: VadModel<S>, vs: Seq<FrameVerdict>)
    requires
        m.state != VadState::PossibleSilence,
    ensures
        after_verdicts(cfg, m, vs).state == VadState::PossibleSilence ==> after_verdicts(
            cfg,
            m,
            vs,
        ).frames_in_state >= 1,
    decreases vs.len(),
{
    if vs.len() > 0 {
        lemma_suspicion_counts(cfg, m, vs.drop_last());
    }
}

/// A dip shorter than that does not break speech: as long as no quiet run is
/// `hangover_frames` long, nor two frames, the utterance goes on with its start
/// as it was and nothing is queued; and a frame that continues speech leads back
/// to it at once.
pub proof fn law_short_dips_do_not_break_speech<P, S>(
    cfg: VadConfig<P>,
    m: VadModel<S>,
    vs: Seq<FrameVerdict>,
)
    requires
        m.state == VadState::Speech,
        forall|k: int|
            0 <= k <= vs.len() ==> quiet_run(#[trigger] vs.take(k)) < max_of(
                cfg.hangover_frames as int,
                2,
            ),
    ensures
        ({
            let after = after_verdicts(cfg, m, vs);
            &&& after.state == (if quiet_run(vs) == 0 {
                VadState::Speech
            } else {
                VadState::PossibleSilence
            })
            &&& quiet_run(vs) > 0 ==> after.frames_in_state == quiet_run(vs)
            &&& after.speeches == m.speeches
            &&& after.speech_start_time == m.speech_start_time
        }),
    decreases vs.len(),
{
    if vs.len() > 0 {
        let head = vs.drop_last();
        assert(vs.take(vs.len() as int) =~= vs);
        assert(vs.take(vs.len() - 1) =~= head);
        assert forall|k: int| 0 <= k <= head.len() implies quiet_run(#[trigger] head.take(k))
            < max_of(cfg.hangover_frames as int, 2) by {
            assert(head.take(k) =~= vs.take(k));
        }
        law_short_dips_do_not_break_speech(cfg, m, head);
    }
}

/// A quiet run that is long enough ends speech with its last frame: the
/// utterance from its start to the present is queued, behind those that wait,
/// with every sample that is still in the history.
pub proof fn law_a_quiet_run_queues_the_utterance<P, S>(
    cfg: VadConfig<P>,
    m: VadModel<S>,
    v: FrameVerdict,
    start: int,
    p: int,
)
    requires
        vad_invariant(cfg, m),
        m.state == VadState::PossibleSilence,
        m.frames_in_state + 1 >= cfg.hangover_frames,
        !v.smoothed_continues,
        m.speech_start_time == Some(start),
        start <= p,
        m.time_offset <= p < m.current_time,
        m.speeches.len() < cfg.max_segment_count,
    ensures
        ({
            let after = after_verdict(cfg, m, v);
            let segment = after.speeches.last();
            let from = m.current_time - segment.samples.len();
            &&& after.state == VadState::Silence
            &&& after.speech_start_time is None
            &&& after.speeches.len() == m.speeches.len() + 1
            &&& after.speeches.drop_last() == m.speeches
            &&& segment.start_time == start
            &&& segment.end_time == m.current_time
            &&& segment.sample_rate == cfg.sample_rate
            &&& !segment.is_manual
            &&& segment.session_id is None
            &&& from <= p
            &&& from >= start - (cfg.sample_rate + 9) / 10
            &&& from == m.time_offset || from == start - (cfg.sample_rate + 9) / 10
            &&& segment.samples[p - from] == m.heard[p - m.time_offset]
        }),
{
    let after = after_verdict(cfg, m, v);
    assert(after.speeches.drop_last() =~= m.speeches);
}

/// Confirmed speech began where its first frame did, as far as that can be told:
/// the frames that confirmed it lie after its start, and nothing is queued.
pub proof fn law_confirmed_speech_begins_before_its_frames<P, S>(
    cfg: VadConfig<P>,
    m: VadModel<S>,
    v: FrameVerdict,
)
    requires
        cfg.hangbefore_frames >= 1,
        m.state == VadState::PossibleSpeech,
        v.smoothed_starts,
        m.frames_in_state + 1 >= cfg.hangbefore_frames,
    ensures
        ({
            let after = after_verdict(cfg, m, v);
            let reach = cfg.frame_size + (cfg.hangbefore_frames - 1) * max_of(
                cfg.hop_samples as int,
                1,
            );
            &&& after.state == VadState::Speech
            &&& after.speech_start_time == Some(
                if m.current_time >= reach {
                    m.current_time - reach
                } else {
                    0
                },
            )
            &&& after.speeches == m.speeches
            &&& after.heard == m.heard
        }),
{
}

/// A verdict changes only what the state machine keeps: the history, the pending
/// samples and the clock stay; and the start of speech changes only where speech
/// is confirmed or ends.
pub proof fn law_verdicts_leave_the_audio<P, S>(cfg: VadConfig<P>, m: VadModel<S>, v: FrameVerdict)
    ensures
        ({
            let after = after_verdict(cfg, m, v);
            &&& after.heard == m.heard
            &&& after.pending == m.pending
            &&& after.current_time == m.current_time
            &&& after.time_offset == m.time_offset
            &&& after.frame_counter == m.frame_counter
            &&& after.samples_since_trim == m.samples_since_trim
            &&& after.speech_start_time != m.speech_start_time ==> (m.state
                == VadState::PossibleSpeech && after.state == VadState::Speech) || (m.state
                == VadState::PossibleSilence && after.state == VadState::Silence)
        }),
{
}

/// After a batch whose frames were all judged, fewer samples wait than an
/// eighth of a frame.
pub proof fn law_batch_leaves_less_than_an_eighth<P, S>(
    cfg: VadConfig<P>,
    m: VadModel<S>,
    zero: S,
)
    requires
        cfg.valid(),
        frame_to_judge(cfg, m, zero) is None,
    ensures
        m.pending.len() == 0 || m.pending.len() < cfg.frame_size / 8,
{
}

/// Samples from one full frame to the next.
pub open spec fn frame_hop<P>(cfg: VadConfig<P>) -> int {
    min_of(max_of(cfg.hop_samples as int, 1), cfg.frame_size as int)
}

/// Whether `m` has taken in the first `j` full frames of the stream `p`, and
/// nothing else: its history is the stream up to the end of the last of them.
pub open spec fn in_step<P, S>(cfg: VadConfig<P>, m: VadModel<S>, p: Seq<S>, j: int) -> bool {
    &&& m.time_offset == 0
    &&& m.pending == p.skip(j * frame_hop(cfg))
    &&& m.heard == p.take(if j == 0 { 0 } else { cfg.frame_size + (j - 1) * frame_hop(cfg) })
}

/// Though frames overlap, each sample of a stream enters the history once, in
/// order: after one more full frame the history is the stream up to its end.
/// This is so for as long as the history need not be cut.
#[verifier::spinoff_prover]
pub proof fn law_full_frames_are_heard_once<P, S>(
    cfg: VadConfig<P>,
    m: VadModel<S>,
    zero: S,
    v: FrameVerdict,
    p: Seq<S>,
    j: int,
)
    requires
        vad_invariant(cfg, m),
        in_step(cfg, m, p, j),
        j >= 0,
        j * frame_hop(cfg) + cfg.frame_size <= p.len(),
        cfg.frame_size + j * frame_hop(cfg) <= cfg.max_buffer_duration,
    ensures
        ({
            &&& frame_to_judge(cfg, m, zero) matches Some((frame, hop))
            &&& in_step(cfg, after_next_frame(cfg, m, frame, hop, v), p, j + 1)
        }),
{
    let h = frame_hop(cfg);
    let size = cfg.frame_size as int;
    let at = j * h;
    assert(0 <= at && (j + 1) * h == at + h && (j - 1) * h == at - h) by (nonlinear_arith)
        requires
            j >= 0,
            h >= 1,
            at == j * h,
    ;
    assert(j == 0 ==> at == 0);
    assert(m.pending.len() == p.len() - at);
    let frame = m.pending.take(size);
    assert(frame_to_judge(cfg, m, zero) == Some((frame, h)));
    let n = new_samples(m, frame, h);
    let new = frame.skip(size - n);
    assert(m.pending.skip(h) =~= p.skip(at + h));
    assert(m.heard + new =~= p.take(size + at));
    law_verdicts_leave_the_audio(cfg, m, v);
    let after = after_hearing(cfg, m, new, v);
    assert(after.heard == m.heard + new);
    assert(after.time_offset == 0);
    assert(after_next_frame(cfg, m, frame, h, v).heard == after.heard);
}

/// A partial frame is heard as it came, without what it was filled up with: the
/// pending samples enter the history, in order and to the last, time advances by
/// as many, and none is left pending. This is so for as long as the history need
/// not be cut.
pub proof fn law_partial_frames_are_heard_whole<P, S>(
    cfg: VadConfig<P>,
    m: VadModel<S>,
    zero: S,
    v: FrameVerdict,
)
    requires
        vad_invariant(cfg, m),
        0 < m.pending.len() < cfg.frame_size,
        m.pending.len() >= cfg.frame_size / 8,
        m.heard.len() + m.pending.len() <= cfg.max_buffer_duration,
    ensures
        ({
            &&& frame_to_judge(cfg, m, zero) matches Some((frame, hop))
            &&& frame.len() == cfg.frame_size
            &&& frame.take(m.pending.len() as int) == m.pending
            &&& forall|i: int| m.pending.len() <= i < frame.len() ==> #[trigger] frame[i] == zero
            &&& hop == m.pending.len()
            &&& ({
                let after = after_next_frame(cfg, m, frame, hop, v);
                &&& after.heard == m.heard + m.pending
                &&& after.current_time == m.current_time + m.pending.len()
                &&& after.time_offset == m.time_offset
                &&& after.pending.len() == 0
            })
        }),
{
    let fill = Seq::new((cfg.frame_size - m.pending.len()) as nat, |i: int| zero);
    assert((m.pending + fill).take(m.pending.len() as int) =~= m.pending);
}

/// Voice activity detector over samples of type `S`.
#[derive(Debug)]
pub struct SileroVad<P, S> {
    config: VadConfig<P>,
    buffer: Vec<S>,
    speeches: Vec<AudioSegment<S>>,
    current_state: VadState,
    frames_in_state: usize,
    silence_frames: usize,
    current_time: u64,
    time_offset: u64,
    speech_start_time: Option<u64>,
    sample_buffer: Vec<S>,
    frame_counter: usize,
    samples_since_trim: u64,
}

impl<P, S> View for SileroVad<P, S> {
    type V = VadModel<S>;

    closed spec fn view(&self) -> VadModel<S> {
        VadModel {
            state: self.current_state,
            frames_in_state: self.frames_in_state as int,
            silence_frames: self.silence_frames as int,
            current_time: self.current_time as int,
            time_offset: self.time_offset as int,
            speech_start_time: match self.speech_start_time {
                Some(t) => Some(t as int),
                None => None,
            },
            heard: self.sample_buffer@,
            speeches: segment_views(self.speeches@),
            pending: self.buffer@,
            frame_counter: self.frame_counter as int,
            samples_since_trim: self.samples_since_trim as int,
        }
    }
}

impl<P, S: Copy> SileroVad<P, S> {
    /// The configuration the detector was made with.
    pub closed spec fn cfg(self) -> VadConfig<P> {
        self.config
    }

    /// The detector's invariant.
    pub open spec fn wf(self) -> bool {
        vad_invariant(self.cfg(), self@)
    }

    /// A detector that has heard nothing.
    pub fn new(config: VadConfig<P>) -> (r: Self)
        requires
            config.valid(),
        ensures
            r.wf(),
            r.cfg() == config,
            r@ == fresh_vad::<S>(),
    {
        let r = SileroVad {
            config,
            buffer: Vec::new(),
            speeches: Vec::new(),
            current_state: VadState::Silence,
            frames_in_state: 0,
            silence_frames: 0,
            current_time: 0,
            time_offset: 0,
            speech_start_time: None,
            sample_buffer: Vec::new(),
            frame_counter: 0,
            samples_since_trim: 0,
        };
        assert(r@ =~= fresh_vad::<S>());
        r
    }

    /// Forgets everything heard.
    pub fn reset(&mut self)
        requires
            old(self).wf(),
        ensures
            final(self).wf(),
            final(self).cfg() == old(self).cfg(),
            final(self)@ == fresh_vad::<S>(),
    {
        self.buffer.clear();
        self.speeches.clear();
        self.current_state = VadState::Silence;
        self.frames_in_state = 0;
        self.silence_frames = 0;
        self.current_time = 0;
        self.time_offset = 0;
        self.speech_start_time = None;
        self.sample_buffer.clear();
        self.frame_counter = 0;
        self.samples_since_trim = 0;
        assert(self@ =~= fresh_vad::<S>());
    }

    /// Cuts the samples from `start_time` to `end_time` out of the history,
    /// with context before the onset and none after the end.
    fn extract_speech_segment(&self, start_time: u64, end_time: u64) -> (r: Vec<S>)
        requires
            self.wf(),
        ensures
            r@ == speech_samples(self.cfg(), self@, start_time as int, end_time as int),
    {
        let rate = self.config.sample_rate;
        let context: u64 = (rate / 10) as u64 + (if rate % 10 == 0 { 0u64 } else { 1u64 });
        assert(context == self.config.context());
        let len: u64 = self.sample_buffer.len() as u64;
        let begin: u64 = start_time.saturating_sub(self.time_offset).saturating_sub(context);
        let from: u64 = if begin <= len { begin } else { len };
        let until: u64 = end_time.saturating_sub(self.time_offset);
        let to: u64 = if until <= len { until } else { len };
        if from >= to {
            Vec::new()
        } else {
            copy_range(self.sample_buffer.as_slice(), from as usize, to as usize)
        }
    }

    /// Least number of samples to remove when the history grows too large.
    fn min_trim_samples(&self) -> (r: usize)
        ensures
            r == self.cfg().min_trim(),
            r >= 1,
    {
        let max_buffer = if self.config.max_buffer_duration >= 1 {
            self.config.max_buffer_duration
        } else {
            1
        };
        let sample_rate = if self.config.sample_rate >= 1 { self.config.sample_rate } else { 1 };
        let frame_size = if self.config.frame_size >= 1 { self.config.frame_size } else { 1 };
        let fraction = if max_buffer / 6 >= frame_size { max_buffer / 6 } else { frame_size };
        let half_second = if sample_rate / 2 >= frame_size { sample_rate / 2 } else { frame_size };
        let larger = if fraction >= half_second { fraction } else { half_second };
        if larger <= max_buffer {
            larger
        } else {
            max_buffer
        }
    }

    /// Queues a segment; the oldest leaves when there are too many. An empty
    /// segment is dropped.
    fn queue_segment(&mut self, segment: AudioSegment<S>)
        requires
            old(self).wf(),
        ensures
            final(self).wf(),
            final(self).cfg() == old(self).cfg(),
            final(self)@ == (VadModel {
                speeches: with_segment(
                    old(self)@.speeches,
                    segment@,
                    old(self).cfg().max_segment_count as int,
                ),
                ..old(self)@
            }),
    {
        if segment.samples.len() > 0 {
            let ghost before = self.speeches@;
            self.speeches.push(segment);
            assert(segment_views(self.speeches@) =~= segment_views(before).push(segment@));
            if self.speeches.len() > self.config.max_segment_count {
                let ghost pushed = self.speeches@;
                self.speeches.remove(0);
                assert(segment_views(self.speeches@) =~= segment_views(pushed).skip(1));
            }
        }
    }

    /// Closes the open segment, if any, and queues it.
    fn finalize_speech_segment(&mut self)
        requires
            old(self).wf(),
        ensures
            final(self).wf(),
            final(self).cfg() == old(self).cfg(),
            final(self)@ == after_speech_end(old(self).cfg(), old(self)@),
    {
        if let Some(start_time) = self.speech_start_time {
            let samples = self.extract_speech_segment(start_time, self.current_time);
            let segment = AudioSegment {
                samples,
                start_time,
                end_time: self.current_time,
                sample_rate: self.config.sample_rate,
                session_id: None,
                is_manual: false,
            };
            assert(segment@ =~= speech_segment(self.cfg(), self@, start_time as int));
            self.speech_start_time = None;
            self.queue_segment(segment);
        }
    }

    /// Takes one verdict into the state machine. The raw probability decides
    /// on the onset of speech, the smoothed one on everything else. A segment is
    /// queued only where suspected silence becomes silence.
    pub fn update_vad_state(&mut self, verdict: FrameVerdict)
        requires
            old(self).wf(),
        ensures
            final(self).wf(),
            final(self).cfg() == old(self).cfg(),
            final(self)@ == after_verdict(old(self).cfg(), old(self)@, verdict),
            match old(self)@.state {
                VadState::Silence => final(self)@.state == (if verdict.raw_starts {
                    VadState::PossibleSpeech
                } else {
                    VadState::Silence
                }),
                VadState::PossibleSpeech => final(self)@.state != VadState::PossibleSilence,
                VadState::Speech => final(self)@.state == (if verdict.smoothed_continues {
                    VadState::Speech
                } else {
                    VadState::PossibleSilence
                }),
                VadState::PossibleSilence => if verdict.smoothed_continues {
                    &&& final(self)@.state == VadState::Speech
                    &&& final(self)@.speeches == old(self)@.speeches
                    &&& final(self)@.speech_start_time == old(self)@.speech_start_time
                } else {
                    final(self)@.state != VadState::PossibleSpeech && final(self)@.state
                        != VadState::Speech
                },
            },
            final(self)@.speeches != old(self)@.speeches ==> old(self)@.state
                == VadState::PossibleSilence && final(self)@.state == VadState::Silence,
    {
        let onset = self.current_state == VadState::Silence;
        let starts = if onset { verdict.raw_starts } else { verdict.smoothed_starts };
        let continues = if onset { verdict.raw_continues } else { verdict.smoothed_continues };
        match self.current_state {
            VadState::Silence => {
                if starts {
                    self.current_state = VadState::PossibleSpeech;
                    self.frames_in_state = 1;
                }
            },
            VadState::PossibleSpeech => {
                if starts {
                    self.frames_in_state = self.frames_in_state + 1;
                    self.silence_frames = 0;
                    if self.frames_in_state >= self.config.hangbefore_frames {
                        let lookback = self.lookback_samples();
                        self.speech_start_time = Some(
                            self.current_time.saturating_sub(lookback),
                        );
                        self.current_state = VadState::Speech;
                        self.frames_in_state = 0;
                    }
                } else if continues {
                    self.silence_frames = 0;
                } else {
                    self.silence_frames = self.silence_frames + 1;
                    if self.silence_frames >= self.config.silence_tolerance_frames {
                        self.current_state = VadState::Silence;
                        self.frames_in_state = 0;
                        self.silence_frames = 0;
                    }
                }
            },
            VadState::Speech => {
                if !continues {
                    self.current_state = VadState::PossibleSilence;
                    self.frames_in_state = 1;
                }
            },
            VadState::PossibleSilence => {
                if continues {
                    self.current_state = VadState::Speech;
                    self.frames_in_state = 0;
                } else {
                    self.frames_in_state = self.frames_in_state + 1;
                    if self.frames_in_state >= self.config.hangover_frames {
                        self.current_state = VadState::Silence;
                        self.frames_in_state = 0;
                        self.finalize_speech_segment();
                    }
                }
            },
        }
    }

    /// How far before the present confirmed speech began.
    fn lookback_samples(&self) -> (r: u64)
        requires
            self.cfg().valid(),
        ensures
            r == self.cfg().lookback(),
    {
        let hop: usize = if self.config.hop_samples >= 1 { self.config.hop_samples } else { 1 };
        if self.config.hangbefore_frames == 0 {
            0
        } else {
            let hops: usize = self.config.hangbefore_frames - 1;
            assert(0 <= hops * hop) by (nonlinear_arith);
            (self.config.frame_size + hops * hop) as u64
        }
    }

    /// Forgets the first `trim_samples` of the history. Speech that began
    /// before their end is queued up to there before they go.
    fn trim_buffer(&mut self, trim_samples: usize)
        requires
            old(self).wf(),
            0 < trim_samples <= old(self)@.heard.len(),
        ensures
            final(self).wf(),
            final(self).cfg() == old(self).cfg(),
            final(self)@ == after_trim(old(self).cfg(), old(self)@, trim_samples as int),
    {
        let new_offset: u64 = self.time_offset + trim_samples as u64;
        if let Some(start_time) = self.speech_start_time {
            if start_time < new_offset {
                let segment = AudioSegment {
                    samples: self.extract_speech_segment(start_time, new_offset),
                    start_time,
                    end_time: new_offset,
                    sample_rate: self.config.sample_rate,
                    session_id: None,
                    is_manual: false,
                };
                assert(segment@ =~= segment_between(
                    self.cfg(),
                    self@,
                    start_time as int,
                    new_offset as int,
                ));
                self.queue_segment(segment);
                self.speech_start_time = Some(new_offset);
            }
        }
        self.time_offset = new_offset;
        drop_front(&mut self.sample_buffer, trim_samples);
    }

    /// Cuts the history where it exceeds the maximum.
    fn trim_buffer_if_needed(&mut self)
        requires
            old(self).wf(),
        ensures
            final(self).wf(),
            final(self).cfg() == old(self).cfg(),
            final(self)@ == after_overflow_trim(old(self).cfg(), old(self)@),
    {
        let len: usize = self.sample_buffer.len();
        if len > self.config.max_buffer_duration {
            let excess: usize = len - self.config.max_buffer_duration;
            let min_trim = self.min_trim_samples();
            let wanted: usize = if excess >= min_trim { excess } else { min_trim };
            let trim: usize = if wanted <= len { wanted } else { len };
            self.trim_buffer(trim);
            self.samples_since_trim = 0;
        }
    }

    /// Takes in a frame that advances by `hop_len` samples, with what the
    /// model said of it.
    pub fn process_frame(&mut self, frame: &[S], hop_len: usize, verdict: FrameVerdict) -> (r:
        VadState)
        requires
            old(self).wf(),
            old(self)@.current_time + frame@.len() <= u64::MAX,
        ensures
            final(self).wf(),
            final(self).cfg() == old(self).cfg(),
            final(self)@ == after_frame(
                old(self).cfg(),
                old(self)@,
                frame@,
                hop_len as int,
                verdict,
            ),
            r == final(self)@.state,
    {
        let hop: usize = if self.sample_buffer.len() == 0 || hop_len > frame.len() {
            frame.len()
        } else {
            hop_len
        };
        let start: usize = frame.len() - hop;
        assert(frame@.subrange(start as int, frame@.len() as int) == frame@.skip(start as int));
        self.hear(frame, start, frame.len(), verdict);
        self.current_state
    }

    /// Takes in a verdict, and with it the samples of `frame` from `start` to
    /// `end`.
    fn hear(&mut self, frame: &[S], start: usize, end: usize, verdict: FrameVerdict)
        requires
            old(self).wf(),
            start <= end <= frame@.len(),
            old(self)@.current_time + (end - start) <= u64::MAX,
        ensures
            final(self).wf(),
            final(self).cfg() == old(self).cfg(),
            final(self)@ == after_hearing(
                old(self).cfg(),
                old(self)@,
                frame@.subrange(start as int, end as int),
                verdict,
            ),
    {
        self.update_vad_state(verdict);
        self.current_time = self.current_time + (end - start) as u64;
        append_range(&mut self.sample_buffer, frame, start, end);
        self.samples_since_trim = self.samples_since_trim + (end - start) as u64;
        self.frame_counter = self.frame_counter + 1;
        if self.frame_counter >= BUFFER_CHECK_INTERVAL {
            self.frame_counter = 0;
            self.trim_buffer_if_needed();
        }
    }

    /// Begins a batch: the samples wait to be framed.
    pub fn begin_batch(&mut self, samples: &[S])
        requires
            old(self).wf(),
        ensures
            final(self).wf(),
            final(self).cfg() == old(self).cfg(),
            final(self)@ == (VadModel { pending: old(self)@.pending + samples@, ..old(self)@ }),
    {
        append_all(&mut self.buffer, samples);
    }

    /// The next frame the model is to judge, and by how many samples it
    /// advances. `zero` fills up a frame that is only partly there.
    pub fn next_frame(&self, zero: S) -> (r: Option<(Vec<S>, usize)>)
        requires
            self.wf(),
        ensures
            match (frame_to_judge(self.cfg(), self@, zero), r) {
                (Some((frame, hop)), Some((f, h))) => f@ == frame && h == hop,
                (None, None) => true,
                _ => false,
            },
    {
        let size: usize = self.config.frame_size;
        let len: usize = self.buffer.len();
        if len >= size {
            let frame = copy_range(self.buffer.as_slice(), 0, size);
            assert(frame@ == self.buffer@.take(size as int));
            let wanted: usize = if self.config.hop_samples >= 1 {
                self.config.hop_samples
            } else {
                1
            };
            Some((frame, if wanted <= size { wanted } else { size }))
        } else if len > 0 && len >= size / 8 {
            let mut frame = copy_range(self.buffer.as_slice(), 0, len);
            while frame.len() < size
                invariant
                    len <= frame@.len() <= size,
                    len == self.buffer@.len(),
                    frame@ == self.buffer@ + Seq::new((frame@.len() - len) as nat, |i: int| zero),
                decreases size - frame@.len(),
            {
                let ghost before = frame@;
                frame.push(zero);
                assert(frame@ == self.buffer@ + Seq::new(
                    (frame@.len() - len) as nat,
                    |i: int| zero,
                ));
            }
            Some((frame, len))
        } else {
            None
        }
    }

    /// Takes in the frame handed out by [`SileroVad::next_frame`], with what
    /// the model said of it.
    pub fn frame_done(&mut self, zero: S, verdict: FrameVerdict) -> (r: bool)
        requires
            old(self).wf(),
            old(self)@.current_time + old(self).cfg().frame_size <= u64::MAX,
        ensures
            final(self).wf(),
            final(self).cfg() == old(self).cfg(),
            match frame_to_judge(old(self).cfg(), old(self)@, zero) {
                Some((frame, hop)) => r && final(self)@ == after_next_frame(
                    old(self).cfg(),
                    old(self)@,
                    frame,
                    hop,
                    verdict,
                ),
                None => !r && final(self)@ == old(self)@,
            },
    {
        match self.next_frame(zero) {
            Some((frame, hop)) => {
                if self.buffer.len() >= self.config.frame_size {
                    self.process_frame(frame.as_slice(), hop, verdict);
                    drop_front(&mut self.buffer, hop);
                } else {
                    assert(frame@.subrange(0, hop as int) =~= self.buffer@);
                    self.hear(frame.as_slice(), 0, hop, verdict);
                    self.buffer.clear();
                }
                true
            },
            None => false,
        }
    }

    /// Ends a batch: trims a history that grew large, and hands over the
    /// segments that were completed.
    pub fn finish_batch(&mut self) -> (r: Vec<AudioSegment<S>>)
        requires
            old(self).wf(),
        ensures
            final(self).wf(),
            final(self).cfg() == old(self).cfg(),
            segment_views(r@) == after_batch_trim(old(self).cfg(), old(self)@).speeches,
            final(self)@ == (VadModel {
                speeches: Seq::empty(),
                ..after_batch_trim(old(self).cfg(), old(self)@)
            }),
    {
        let threshold: u64 = self.config.frame_size as u64 * TRIM_INTERVAL_FRAMES as u64;
        if self.samples_since_trim >= threshold {
            self.samples_since_trim = 0;
            let max_buffer: usize = self.config.max_buffer_duration;
            let len: usize = self.sample_buffer.len();
            if len > max_buffer * 3 / 4 {
                self.trim_buffer(len - max_buffer / 2);
            }
        }
        self.drain_speeches()
    }

    /// Processes a batch of samples, given what the model says of its frames
    /// in turn. Where the verdicts end before the frames do, the model failed
    /// there: `None`, with the frames before it taken in.
    pub fn process_audio(&mut self, samples: &[S], zero: S, verdicts: &[FrameVerdict]) -> (r:
        Option<Vec<AudioSegment<S>>>)
        requires
            old(self).wf(),
            old(self)@.current_time + verdicts@.len() * old(self).cfg().frame_size <= u64::MAX,
        ensures
            final(self).wf(),
            final(self).cfg() == old(self).cfg(),
            samples@.len() == 0 ==> r is Some && r->0@.len() == 0 && final(self)@ == old(self)@,
            samples@.len() > 0 ==> ({
                let begun = VadModel { pending: old(self)@.pending + samples@, ..old(self)@ };
                let (n, end) = after_frames(old(self).cfg(), begun, zero, verdicts@);
                if frame_to_judge(old(self).cfg(), end, zero) is Some {
                    r is None && final(self)@ == end
                } else {
                    let trimmed = after_batch_trim(old(self).cfg(), end);
                    &&& r is Some
                    &&& segment_views(r->0@) == trimmed.speeches
                    &&& final(self)@ == (VadModel { speeches: Seq::empty(), ..trimmed })
                }
            }),
    {
        if samples.len() == 0 {
            return Some(Vec::new());
        }
        self.begin_batch(samples);
        let ghost begun = self@;
        let ghost cfg = self.cfg();
        let mut i: usize = 0;
        let mut open = self.next_frame(zero).is_some();
        assert(verdicts@.skip(0) == verdicts@);
        while open && i < verdicts.len()
            invariant
                i <= verdicts@.len(),
                self.wf(),
                self.cfg() == cfg,
                self@.current_time + (verdicts@.len() - i) * cfg.frame_size <= u64::MAX,
                open == (frame_to_judge(cfg, self@, zero) is Some),
                after_frames(cfg, begun, zero, verdicts@).1 == after_frames(
                    cfg,
                    self@,
                    zero,
                    verdicts@.skip(i as int),
                ).1,
            decreases verdicts@.len() - i,
        {
            let ghost before = self@;
            assert((verdicts@.len() - i) * cfg.frame_size == (verdicts@.len() - i - 1)
                * cfg.frame_size + cfg.frame_size) by (nonlinear_arith);
            assert(0 <= (verdicts@.len() - i - 1) * cfg.frame_size) by (nonlinear_arith)
                requires
                    i < verdicts@.len(),
            ;
            self.frame_done(zero, verdicts[i]);
            assert(verdicts@.skip(i as int).skip(1) == verdicts@.skip(i + 1));
            i += 1;
            open = self.next_frame(zero).is_some();
        }
        if open {
            None
        } else {
            Some(self.finish_batch())
        }
    }

    /// Current state of the machine.
    pub fn get_state(&self) -> (r: VadState)
        ensures
            r == self@.state,
    {
        self.current_state
    }

    /// Whether speech is going on or suspected.
    pub fn is_speaking(&self) -> (r: bool)
        ensures
            r == (self@.state == VadState::Speech || self@.state == VadState::PossibleSpeech),
    {
        self.current_state == VadState::Speech || self.current_state == VadState::PossibleSpeech
    }

    /// Duration of the current speech, if any, in samples.
    pub fn get_current_speech_duration(&self) -> (r: Option<u64>)
        requires
            self.wf(),
        ensures
            match self@.speech_start_time {
                Some(start) => r is Some && r->0 == self@.current_time - start,
                None => r is None,
            },
    {
        match self.speech_start_time {
            Some(start) => Some(self.current_time - start),
            None => None,
        }
    }

    /// The segments waiting to be taken.
    pub fn get_speeches(&self) -> (r: &Vec<AudioSegment<S>>)
        ensures
            segment_views(r@) == self@.speeches,
    {
        &self.speeches
    }

    /// Takes the waiting segments.
    pub fn drain_speeches(&mut self) -> (r: Vec<AudioSegment<S>>)
        requires
            old(self).wf(),
        ensures
            final(self).wf(),
            final(self).cfg() == old(self).cfg(),
            segment_views(r@) == old(self)@.speeches,
            final(self)@ == (VadModel { speeches: Seq::empty(), ..old(self)@ }),
    {
        let mut taken: Vec<AudioSegment<S>> = Vec::new();
        std::mem::swap(&mut taken, &mut self.speeches);
        assert(segment_views(self.speeches@) =~= Seq::empty());
        taken
    }

    /// The speech going on, as far as it has come.
    pub fn get_current_speech(&self) -> (r: Option<AudioSegment<S>>)
        requires
            self.wf(),
        ensures
            match self@.speech_start_time {
                Some(start) if self@.state == VadState::Speech || self@.state
                    == VadState::PossibleSpeech => r is Some && r->0@ == speech_segment(
                    self.cfg(),
                    self@,
                    start,
                ),
                _ => r is None,
            },
    {
        if !self.is_speaking() {
            return None;
        }
        match self.speech_start_time {
            Some(start_time) => {
                let segment = AudioSegment {
                    samples: self.extract_speech_segment(start_time, self.current_time),
                    start_time,
                    end_time: self.current_time,
                    sample_rate: self.config.sample_rate,
                    session_id: None,
                    is_manual: false,
                };
                assert(segment@ =~= speech_segment(self.cfg(), self@, start_time as int));
                Some(segment)
            },
            None => None,
        }
    }
}

/// The queue holds the latest segments, in order, as many as it has room for.
pub proof fn law_the_queue_keeps_the_latest<S>(
    speeches: Seq<SegmentModel<S>>,
    segment: SegmentModel<S>,
    max: int,
)
    requires
        speeches.len() <= max,
        max >= 1,
        segment.samples.len() > 0,
    ensures
        ({
            let after = with_segment(speeches, segment, max);
            let all = speeches.push(segment);
            &&& after.len() == min_of(all.len() as int, max)
            &&& after == all.skip(all.len() - after.len())
            &&& after.last() == segment
        }),
{
    let all = speeches.push(segment);
    assert(all.skip(0) =~= all);
}

/// A history that exceeds its maximum is cut to it, or further: by a sixth of it
/// or half a second where that is more, so that no slivers are cut off; one that
/// does not is left alone.
pub proof fn law_overflow_is_cut<P, S>(cfg: VadConfig<P>, m: VadModel<S>)
    requires
        vad_invariant(cfg, m),
    ensures
        ({
            let after = after_overflow_trim(cfg, m);
            let cut = m.heard.len() - after.heard.len();
            &&& m.heard.len() <= cfg.max_buffer_duration ==> after == m
            &&& m.heard.len() > cfg.max_buffer_duration ==> {
                &&& after.heard.len() <= cfg.max_buffer_duration
                &&& after.heard == m.heard.skip(cut)
                &&& after.time_offset == m.time_offset + cut
                &&& after.samples_since_trim == 0
                &&& cut == m.heard.len() - cfg.max_buffer_duration || cut == m.heard.len() || cut
                    == cfg.min_trim()
                &&& cut >= cfg.min_trim() || cut == m.heard.len()
            }
        }),
        cfg.max_buffer_duration >= cfg.frame_size && cfg.max_buffer_duration >= cfg.sample_rate / 2
            ==> cfg.min_trim() >= cfg.max_buffer_duration / 6 && cfg.min_trim() >= cfg.sample_rate
            / 2 && cfg.min_trim() >= cfg.frame_size && (cfg.min_trim() == cfg.max_buffer_duration / 6
            || cfg.min_trim() == cfg.sample_rate / 2 || cfg.min_trim() == cfg.frame_size),
{
}

/// At the end of a batch, once sixty frames' worth of samples was heard, a history
/// of more than three quarters of its maximum is cut to half of it; otherwise
/// nothing is cut.
pub proof fn law_batches_make_room<P, S>(cfg: VadConfig<P>, m: VadModel<S>)
    requires
        vad_invariant(cfg, m),
    ensures
        ({
            let after = after_batch_trim(cfg, m);
            let due = m.samples_since_trim >= cfg.frame_size * 60;
            let large = m.heard.len() > cfg.max_buffer_duration * 3 / 4;
            &&& due && large ==> after.heard.len() == cfg.max_buffer_duration / 2 && after.heard
                == m.heard.skip(m.heard.len() - cfg.max_buffer_duration / 2)
            &&& !(due && large) ==> after.heard == m.heard && after.speeches == m.speeches
            &&& due ==> after.samples_since_trim == 0
            &&& !due ==> after == m
            &&& after.time_offset + after.heard.len() == m.current_time
            &&& after.pending == m.pending && after.state == m.state
        }),
{
}

/// A batch is judged to its end: frame by frame, with one verdict each, until no
/// frame is left or the verdicts are used up.
pub proof fn law_batches_are_judged_to_the_end<P, S>(
    cfg: VadConfig<P>,
    m: VadModel<S>,
    zero: S,
    verdicts: Seq<FrameVerdict>,
)
    ensures
        ({
            let (n, end) = after_frames(cfg, m, zero, verdicts);
            &&& 0 <= n <= verdicts.len()
            &&& n == verdicts.len() || frame_to_judge(cfg, end, zero) is None
            &&& n == 0 ==> end == m
            &&& n > 0 ==> (frame_to_judge(cfg, m, zero) matches Some((frame, hop)) && end
                == after_frames(
                cfg,
                after_next_frame(cfg, m, frame, hop, verdicts[0]),
                zero,
                verdicts.skip(1),
            ).1)
        }),
    decreases verdicts.len(),
{
    if let Some((frame, hop)) = frame_to_judge(cfg, m, zero) {
        if verdicts.len() > 0 {
            law_batches_are_judged_to_the_end(
                cfg,
                after_next_frame(cfg, m, frame, hop, verdicts[0]),
                zero,
                verdicts.skip(1),
            );
        }
    }
}

} // verus!
