//! The audio pipeline between capture and transcription: leading context,
//! the manual recording, segments and streaming events.

use vstd::prelude::*;

use crate::config::SAMPLE_RATE;
use crate::real_time_transcriber::{StreamEvent, StreamModel, TranscriptionMode};
use crate::samples::{append_all, append_range, copy_range, keep_last, last_of};
use crate::silero_audio_processor::{
    max_of, min_of, segment_views, AudioSegment, SegmentModel,
};
use crate::state::{AudioVisualizationData, VisualizationModel};
use crate::text::paths::{join_path, path_join};
use crate::text::strings::{concat, concat3, opt_view};
use crate::time::local_time_text;

verus! {

/// Milliseconds of leading context that are kept.
pub const PREROLL_MILLIS: usize = 150;

/// The state of an audio processor.
#[verifier::ext_equal]
pub struct AudioModel<S> {
    /// The latest samples received.
    pub preroll: Seq<S>,
    /// Speech was detected in the latest buffer.
    pub speaking: bool,
    /// A streaming utterance is open.
    pub stream_active: bool,
    /// The manual recording.
    pub manual: Seq<S>,
    /// The session that audio belongs to.
    pub session_id: Option<Seq<char>>,
    /// How many buffers were received, in the counter's range.
    pub received: usize,
    /// Samples shown of each buffer.
    pub buffer_size: int,
    /// Most samples of leading context.
    pub preroll_max: int,
    /// Most samples of a manual recording.
    pub manual_max: int,
}

/// Handles audio between capture and transcription.
#[derive(Debug)]
pub struct AudioProcessor<S> {
    preroll: Vec<S>,
    speaking: bool,
    stream_active: bool,
    manual_audio_buffer: Vec<S>,
    current_session_id: Option<String>,
    samples_received: usize,
    buffer_size: usize,
    preroll_max_samples: usize,
    manual_buffer_max_size: usize,
}

impl<S> View for AudioProcessor<S> {
    type V = AudioModel<S>;

    closed spec fn view(&self) -> AudioModel<S> {
        AudioModel {
            preroll: self.preroll@,
            speaking: self.speaking,
            stream_active: self.stream_active,
            manual: self.manual_audio_buffer@,
            session_id: opt_view(self.current_session_id),
            received: self.samples_received,
            buffer_size: self.buffer_size as int,
            preroll_max: self.preroll_max_samples as int,
            manual_max: self.manual_buffer_max_size as int,
        }
    }
}

/// What holds of an audio processor at all times: context and recording stay
/// within their limits.
pub open spec fn audio_invariant<S>(m: AudioModel<S>) -> bool {
    &&& m.preroll.len() <= m.preroll_max
    &&& m.manual.len() <= m.manual_max
}

/// The session that audio belongs to before any session is started.
pub open spec fn initial_session(mode: TranscriptionMode) -> Option<Seq<char>> {
    match mode {
        TranscriptionMode::RealTime => Some("realtime"@),
        TranscriptionMode::Manual => None,
    }
}

/// The part of a buffer that is shown.
pub open spec fn shown<S>(m: AudioModel<S>, samples: Seq<S>) -> Seq<S> {
    samples.take(min_of(m.buffer_size, samples.len() as int))
}

/// `m` after a buffer came in.
pub open spec fn after_receive<S>(m: AudioModel<S>, samples: Seq<S>) -> AudioModel<S> {
    AudioModel {
        received: m.received.wrapping_add(1),
        preroll: last_of(m.preroll + samples, m.preroll_max),
        ..m
    }
}

/// The events that go with a buffer, `m` being the state after it was judged.
/// Only real-time mode streams: a manual recording is transcribed as a whole.
pub open spec fn events_for<S>(
    m: AudioModel<S>,
    mode: TranscriptionMode,
    samples: Seq<S>,
) -> Seq<StreamModel<S>> {
    let utterance = mode == TranscriptionMode::RealTime && m.speaking;
    if utterance && !m.stream_active {
        let start = seq![StreamModel::Start { session_id: m.session_id }];
        if m.preroll.len() > 0 {
            start.push(StreamModel::Chunk(m.preroll))
        } else {
            start
        }
    } else if utterance {
        seq![StreamModel::Chunk(samples)]
    } else if m.stream_active {
        seq![StreamModel::End]
    } else {
        seq![]
    }
}

/// What a list of events holds.
pub open spec fn event_views<S>(v: Seq<StreamEvent<S>>) -> Seq<StreamModel<S>> {
    v.map_values(|e: StreamEvent<S>| e@)
}

/// A segment tagged with the session, with the leading context in front where
/// `context` is given.
pub open spec fn tagged<S>(
    segment: SegmentModel<S>,
    session_id: Option<Seq<char>>,
    context: Option<Seq<S>>,
) -> SegmentModel<S> {
    match context {
        Some(preroll) => SegmentModel {
            samples: preroll + segment.samples,
            start_time: max_of(segment.start_time - preroll.len(), 0),
            session_id,
            ..segment
        },
        None => SegmentModel { session_id, ..segment },
    }
}

/// The segments as they are sent on, `m` being the state before the buffer was
/// judged: all tagged with the session, the first with leading context where
/// nobody was speaking before.
pub open spec fn sent_segments<S>(m: AudioModel<S>, segments: Seq<SegmentModel<S>>) -> Seq<
    SegmentModel<S>,
> {
    Seq::new(
        segments.len(),
        |i: int|
            tagged(
                segments[i],
                m.session_id,
                if i == 0 && !m.speaking && m.preroll.len() > 0 {
                    Some(m.preroll)
                } else {
                    None
                },
            ),
    )
}

/// The display after a buffer was judged in real-time mode.
pub open spec fn shown_realtime<S>(
    d: VisualizationModel<S>,
    samples: Seq<S>,
    speaking: bool,
) -> VisualizationModel<S> {
    VisualizationModel {
        samples,
        is_speaking: speaking,
        reset_requested: false,
        transcript: if d.reset_requested {
            Seq::empty()
        } else {
            d.transcript
        },
        ..d
    }
}

/// The recording after a buffer was added, cut at the limit.
pub open spec fn recorded<S>(m: AudioModel<S>, samples: Seq<S>) -> Seq<S> {
    let all = m.manual + samples;
    if all.len() > m.manual_max {
        all.take(max_of(m.manual_max, m.manual.len() as int))
    } else {
        all
    }
}

/// The manual recording as a segment.
pub open spec fn manual_segment<S>(
    samples: Seq<S>,
    sample_rate: int,
    session_id: Option<Seq<char>>,
) -> SegmentModel<S> {
    SegmentModel {
        samples,
        start_time: 0,
        end_time: samples.len() as int,
        sample_rate,
        session_id,
        is_manual: true,
    }
}

/// The path of a recording made at the time `stamp`.
pub open spec fn recording_path(dir: Seq<char>, stamp: Seq<char>) -> Seq<char> {
    join_path(dir, "recording_"@ + stamp + ".wav"@)
}

/// A copy of an optional text.
fn copy_id(id: &Option<String>) -> (r: Option<String>)
    ensures
        opt_view(r) == opt_view(*id),
{
    match id {
        Some(s) => Some(s.clone()),
        None => None,
    }
}

/// What a buffer makes happen.
#[derive(Debug)]
pub struct BufferOutcome<S> {
    /// Segments to be transcribed.
    pub segments: Vec<AudioSegment<S>>,
    /// The transcript history is to be cleared.
    pub reset_history: bool,
    /// The manual recording is full: recording is to be stopped, and the
    /// session with it.
    pub overflow: bool,
    /// Events for the streaming worker.
    pub events: Vec<StreamEvent<S>>,
}

/// `m` after a buffer was received and judged.
pub open spec fn after_buffer<S>(
    m: AudioModel<S>,
    mode: TranscriptionMode,
    samples: Seq<S>,
    speaking: bool,
) -> AudioModel<S> {
    let received = after_receive(m, samples);
    match mode {
        TranscriptionMode::RealTime => AudioModel { speaking, ..received },
        TranscriptionMode::Manual => AudioModel { manual: recorded(received, samples), ..received },
    }
}

/// `m` after a buffer was handled in full: an utterance is open while somebody
/// speaks in real-time mode.
pub open spec fn after_process<S>(
    m: AudioModel<S>,
    mode: TranscriptionMode,
    samples: Seq<S>,
    speaking: bool,
) -> AudioModel<S> {
    let judged = after_buffer(m, mode, samples, speaking);
    AudioModel {
        stream_active: mode == TranscriptionMode::RealTime && judged.speaking,
        ..judged
    }
}

/// `m` after recording was found to be off.
pub open spec fn after_pause<S>(m: AudioModel<S>) -> AudioModel<S> {
    AudioModel { preroll: Seq::empty(), stream_active: false, ..m }
}

/// The events that go with recording being off: an open utterance ends.
pub open spec fn pause_events<S>(m: AudioModel<S>) -> Seq<StreamModel<S>> {
    if m.stream_active {
        seq![StreamModel::End]
    } else {
        seq![]
    }
}

impl<S: Copy> AudioProcessor<S> {
    /// The processor's invariant.
    pub open spec fn wf(self) -> bool {
        audio_invariant(self@)
    }

    /// A processor that has received nothing. A manual recording may last
    /// `max_recording_secs`.
    pub fn new(mode: TranscriptionMode, buffer_size: usize, max_recording_secs: u32) -> (r: Self)
        requires
            max_recording_secs * SAMPLE_RATE <= usize::MAX,
        ensures
            r.wf(),
            r@ == (AudioModel::<S> {
                preroll: Seq::empty(),
                speaking: false,
                stream_active: false,
                manual: Seq::empty(),
                session_id: initial_session(mode),
                received: 0,
                buffer_size: buffer_size as int,
                preroll_max: max_of(SAMPLE_RATE * PREROLL_MILLIS / 1000, buffer_size as int),
                manual_max: max_recording_secs * SAMPLE_RATE,
            }),
    {
        let context: usize = SAMPLE_RATE * PREROLL_MILLIS / 1000;
        let current_session_id = match mode {
            TranscriptionMode::RealTime => Some("realtime".to_owned()),
            TranscriptionMode::Manual => None,
        };
        AudioProcessor {
            preroll: Vec::new(),
            speaking: false,
            stream_active: false,
            manual_audio_buffer: Vec::new(),
            current_session_id,
            samples_received: 0,
            buffer_size,
            preroll_max_samples: if context >= buffer_size { context } else { buffer_size },
            manual_buffer_max_size: max_recording_secs as usize * SAMPLE_RATE,
        }
    }

    /// Recording is off: an open utterance ends, and the leading context is
    /// forgotten.
    pub fn pause(&mut self) -> (r: Vec<StreamEvent<S>>)
        requires
            old(self).wf(),
        ensures
            final(self).wf(),
            event_views(r@) == pause_events(old(self)@),
            final(self)@ == after_pause(old(self)@),
    {
        let mut events: Vec<StreamEvent<S>> = Vec::new();
        if self.stream_active {
            events.push(StreamEvent::End);
        }
        assert(event_views(events@) =~= pause_events(self@));
        self.stream_active = false;
        self.preroll.clear();
        events
    }

    /// A buffer came in: it is counted, and joins the leading context.
    pub fn receive(&mut self, samples: &[S])
        requires
            old(self).wf(),
        ensures
            final(self).wf(),
            final(self)@ == after_receive(old(self)@, samples@),
    {
        self.samples_received = self.samples_received.wrapping_add(1);
        append_all(&mut self.preroll, samples);
        keep_last(&mut self.preroll, self.preroll_max_samples);
    }

    fn show(&self, samples: &[S], display: &mut AudioVisualizationData<S>)
        ensures
            final(display)@ == (VisualizationModel {
                samples: shown(self@, samples@),
                ..old(display)@
            }),
    {
        let n: usize = if self.buffer_size <= samples.len() {
            self.buffer_size
        } else {
            samples.len()
        };
        let part = copy_range(samples, 0, n);
        assert(part@ =~= shown(self@, samples@));
        display.update_samples(part.as_slice());
    }

    /// Handles a buffer in real-time mode. `segments` are those that voice
    /// activity detection completed with it, or none where detection failed.
    /// The result is the segments as they are sent on, and whether the
    /// transcript history is to be cleared.
    pub fn process_realtime_audio(
        &mut self,
        samples: &[S],
        segments: Option<Vec<AudioSegment<S>>>,
        vad_speaking: bool,
        display: &mut AudioVisualizationData<S>,
    ) -> (r: (Vec<AudioSegment<S>>, bool))
        requires
            old(self).wf(),
        ensures
            final(self).wf(),
            final(self)@ == (AudioModel {
                speaking: segments is Some && vad_speaking,
                ..old(self)@
            }),
            final(display)@ == shown_realtime(
                old(display)@,
                shown(old(self)@, samples@),
                segments is Some && vad_speaking,
            ),
            segment_views(r.0@) == (match segments {
                Some(list) => sent_segments(old(self)@, segment_views(list@)),
                None => seq![],
            }),
            r.1 == old(display)@.reset_requested,
    {
        let was_speaking = self.speaking;
        self.show(samples, display);
        self.speaking = segments.is_some() && vad_speaking;
        display.is_speaking = self.speaking;
        let reset = display.reset_requested;
        if reset {
            display.reset_requested = false;
            display.transcript = String::new();
            assert(display.transcript@ =~= Seq::empty());
        }
        let ghost before = old(self)@;
        let mut sent: Vec<AudioSegment<S>> = Vec::new();
        match segments {
            Some(list) => {
                let ghost all = segment_views(list@);
                let mut list = list;
                let mut i: usize = 0;
                let count: usize = list.len();
                assert(list@.skip(0) == list@);
                while i < count
                    invariant
                        i <= count,
                        count == all.len(),
                        segment_views(list@) == all.skip(i as int),
                        self@ == (AudioModel { speaking: self@.speaking, ..before }),
                        before == old(self)@,
                        was_speaking == before.speaking,
                        segment_views(sent@) == sent_segments(before, all).take(i as int),
                    decreases count - i,
                {
                    assert(list@.len() == all.skip(i as int).len());
                    let segment = list.remove(0);
                    assert(segment@ == all[i as int]) by {
                        assert(all.skip(i as int)[0] == all[i as int]);
                    }
                    assert(segment_views(list@) =~= all.skip(i + 1)) by {
                        assert forall|k: int| 0 <= k < list@.len() implies list@[k]@ == all[k + i + 1] by {
                            assert(all.skip(i as int)[k + 1] == all[k + i + 1]);
                        }
                    }
                    let prepend = i == 0 && !was_speaking && self.preroll.len() > 0;
                    let ready = self.tag(segment, prepend);
                    let ghost earlier = segment_views(sent@);
                    sent.push(ready);
                    assert(segment_views(sent@) =~= earlier.push(ready@));
                    assert(sent_segments(before, all)[i as int] == ready@);
                    assert(sent_segments(before, all).take(i + 1) =~= sent_segments(
                        before,
                        all,
                    ).take(i as int).push(ready@));
                    i += 1;
                }
                assert(sent_segments(before, all).take(i as int) =~= sent_segments(before, all));
            },
            None => {
                assert(segment_views(sent@) =~= seq![]);
            },
        }
        (sent, reset)
    }

    fn tag(&self, segment: AudioSegment<S>, prepend: bool) -> (r: AudioSegment<S>)
        ensures
            r@ == tagged(
                segment@,
                self@.session_id,
                if prepend {
                    Some(self@.preroll)
                } else {
                    None
                },
            ),
    {
        let session_id = copy_id(&self.current_session_id);
        if prepend {
            let mut samples: Vec<S> = Vec::new();
            append_all(&mut samples, self.preroll.as_slice());
            append_all(&mut samples, segment.samples.as_slice());
            assert(samples@ =~= self.preroll@ + segment.samples@);
            AudioSegment {
                samples,
                start_time: segment.start_time.saturating_sub(self.preroll.len() as u64),
                end_time: segment.end_time,
                sample_rate: segment.sample_rate,
                session_id,
                is_manual: segment.is_manual,
            }
        } else {
            AudioSegment {
                samples: segment.samples,
                start_time: segment.start_time,
                end_time: segment.end_time,
                sample_rate: segment.sample_rate,
                session_id,
                is_manual: segment.is_manual,
            }
        }
    }

    /// Shows a buffer of a manual recording.
    pub fn show_manual_audio(&self, samples: &[S], display: &mut AudioVisualizationData<S>)
        ensures
            final(display)@ == (VisualizationModel {
                samples: shown(self@, samples@),
                is_speaking: true,
                ..old(display)@
            }),
    {
        self.show(samples, display);
        display.is_speaking = true;
    }

    /// Adds a buffer to the manual recording, as far as it fits. The result
    /// tells that it did not fit: recording is then to be stopped.
    pub fn process_manual_audio(&mut self, samples: &[S]) -> (r: bool)
        requires
            old(self).wf(),
        ensures
            final(self).wf(),
            final(self)@ == (AudioModel {
                manual: recorded(old(self)@, samples@),
                ..old(self)@
            }),
            r == (old(self)@.manual.len() + samples@.len() > old(self)@.manual_max),
    {
        let room: usize = self.manual_buffer_max_size - self.manual_audio_buffer.len();
        let ghost before = self.manual_audio_buffer@;
        if samples.len() > room {
            append_range(&mut self.manual_audio_buffer, samples, 0, room);
            assert(self.manual_audio_buffer@ =~= (before + samples@).take(before.len() + room));
            true
        } else {
            append_all(&mut self.manual_audio_buffer, samples);
            false
        }
    }

    /// The streaming events that go with a buffer, once it was judged.
    pub fn stream_events(&mut self, mode: TranscriptionMode, samples: &[S]) -> (r: Vec<
        StreamEvent<S>,
    >)
        requires
            old(self).wf(),
        ensures
            final(self).wf(),
            event_views(r@) == events_for(old(self)@, mode, samples@),
            final(self)@ == (AudioModel {
                stream_active: mode == TranscriptionMode::RealTime && old(self)@.speaking,
                ..old(self)@
            }),
    {
        let utterance = mode == TranscriptionMode::RealTime && self.speaking;
        let mut events: Vec<StreamEvent<S>> = Vec::new();
        if utterance && !self.stream_active {
            events.push(StreamEvent::Start { session_id: copy_id(&self.current_session_id) });
            if self.preroll.len() > 0 {
                let preroll = copy_range(self.preroll.as_slice(), 0, self.preroll.len());
                assert(preroll@ =~= self.preroll@);
                events.push(StreamEvent::Chunk(preroll));
            }
        } else if utterance {
            let chunk = copy_range(samples, 0, samples.len());
            assert(chunk@ =~= samples@);
            events.push(StreamEvent::Chunk(chunk));
        } else if self.stream_active {
            events.push(StreamEvent::End);
        }
        assert(event_views(events@) =~= events_for(self@, mode, samples@));
        self.stream_active = utterance;
        events
    }

    /// Handles a buffer that came in while recording is on: it joins the
    /// leading context; in real-time mode the segments that detection completed
    /// with it are sent on, in manual mode it is recorded; and the streaming
    /// worker hears of it.
    pub fn process_buffer(
        &mut self,
        mode: TranscriptionMode,
        samples: &[S],
        segments: Option<Vec<AudioSegment<S>>>,
        vad_speaking: bool,
        display: &mut AudioVisualizationData<S>,
    ) -> (r: BufferOutcome<S>)
        requires
            old(self).wf(),
        ensures
            final(self).wf(),
            ({
                let speaking = segments is Some && vad_speaking;
                let received = after_receive(old(self)@, samples@);
                let judged = after_buffer(old(self)@, mode, samples@, speaking);
                &&& final(self)@ == after_process(old(self)@, mode, samples@, speaking)
                &&& event_views(r.events@) == events_for(judged, mode, samples@)
                &&& match mode {
                    TranscriptionMode::RealTime => {
                        &&& segment_views(r.segments@) == (match segments {
                            Some(list) => sent_segments(received, segment_views(list@)),
                            None => seq![],
                        })
                        &&& r.reset_history == old(display)@.reset_requested
                        &&& !r.overflow
                        &&& final(display)@ == shown_realtime(
                            old(display)@,
                            shown(old(self)@, samples@),
                            speaking,
                        )
                    },
                    TranscriptionMode::Manual => {
                        &&& r.segments@.len() == 0
                        &&& !r.reset_history
                        &&& r.overflow == (old(self)@.manual.len() + samples@.len()
                            > old(self)@.manual_max)
                        &&& final(display)@ == (VisualizationModel {
                            samples: shown(old(self)@, samples@),
                            is_speaking: true,
                            ..old(display)@
                        })
                    },
                }
            }),
    {
        self.receive(samples);
        match mode {
            TranscriptionMode::RealTime => {
                let (sent, reset_history) = self.process_realtime_audio(
                    samples,
                    segments,
                    vad_speaking,
                    display,
                );
                let events = self.stream_events(mode, samples);
                BufferOutcome { segments: sent, reset_history, overflow: false, events }
            },
            TranscriptionMode::Manual => {
                self.show_manual_audio(samples, display);
                let overflow = self.process_manual_audio(samples);
                let events = self.stream_events(mode, samples);
                BufferOutcome { segments: Vec::new(), reset_history: false, overflow, events }
            },
        }
    }

    /// Takes the manual recording, if there is any, as one segment for
    /// transcription. All of it is transcribed: no detection filters it.
    pub fn process_accumulated_manual_audio(
        &mut self,
        sample_rate: usize,
        expected_session_id: Option<String>,
    ) -> (r: Option<AudioSegment<S>>)
        requires
            old(self).wf(),
        ensures
            final(self).wf(),
            final(self)@ == (AudioModel { manual: Seq::empty(), ..old(self)@ }),
            match r {
                Some(segment) => old(self)@.manual.len() > 0 && segment@ == manual_segment(
                    old(self)@.manual,
                    sample_rate as int,
                    opt_view(expected_session_id),
                ),
                None => old(self)@.manual.len() == 0,
            },
    {
        let mut samples: Vec<S> = Vec::new();
        std::mem::swap(&mut samples, &mut self.manual_audio_buffer);
        if samples.len() == 0 {
            return None;
        }
        let end_time: u64 = samples.len() as u64;
        Some(
            AudioSegment {
                samples,
                start_time: 0,
                end_time,
                sample_rate,
                session_id: expected_session_id,
                is_manual: true,
            },
        )
    }

    /// Triggers transcription of the manual recording.
    pub fn trigger_manual_transcription(
        &mut self,
        sample_rate: usize,
        expected_session_id: Option<String>,
    ) -> (r: Option<AudioSegment<S>>)
        requires
            old(self).wf(),
        ensures
            final(self).wf(),
            final(self)@ == (AudioModel { manual: Seq::empty(), ..old(self)@ }),
            match r {
                Some(segment) => old(self)@.manual.len() > 0 && segment@ == manual_segment(
                    old(self)@.manual,
                    sample_rate as int,
                    opt_view(expected_session_id),
                ),
                None => old(self)@.manual.len() == 0,
            },
    {
        self.process_accumulated_manual_audio(sample_rate, expected_session_id)
    }

    /// Empties the manual recording.
    pub fn clear_manual_buffer(&mut self)
        requires
            old(self).wf(),
        ensures
            final(self).wf(),
            final(self)@ == (AudioModel { manual: Seq::empty(), ..old(self)@ }),
    {
        self.manual_audio_buffer.clear();
    }

    /// Starts a manual session: the recording is emptied and audio belongs to
    /// the session, at once.
    pub fn start_new_manual_session(&mut self, session_id: String)
        requires
            old(self).wf(),
        ensures
            final(self).wf(),
            final(self)@ == (AudioModel {
                manual: Seq::empty(),
                session_id: Some(session_id@),
                ..old(self)@
            }),
    {
        self.manual_audio_buffer.clear();
        self.current_session_id = Some(session_id);
    }

    /// Sets the session that audio belongs to.
    pub fn set_session_id(&mut self, session_id: Option<String>)
        requires
            old(self).wf(),
        ensures
            final(self).wf(),
            final(self)@ == (AudioModel { session_id: opt_view(session_id), ..old(self)@ }),
    {
        self.current_session_id = session_id;
    }

    /// The session that audio belongs to.
    pub fn get_session_id(&self) -> (r: Option<String>)
        ensures
            opt_view(r) == self@.session_id,
    {
        copy_id(&self.current_session_id)
    }

    /// How many buffers were received.
    pub fn get_samples_received_count(&self) -> (r: usize)
        ensures
            r == self@.received,
    {
        self.samples_received
    }
}

/// Several buffers, one after the other.
pub open spec fn all_of<S>(buffers: Seq<Seq<S>>) -> Seq<S>
    decreases buffers.len(),
{
    if buffers.len() == 0 {
        Seq::empty()
    } else {
        all_of(buffers.drop_last()) + buffers.last()
    }
}

/// `m` after several buffers were added to the manual recording.
pub open spec fn after_recording<S>(m: AudioModel<S>, buffers: Seq<Seq<S>>) -> AudioModel<S>
    decreases buffers.len(),
{
    if buffers.len() == 0 {
        m
    } else {
        let before = after_recording(m, buffers.drop_last());
        AudioModel { manual: recorded(before, buffers.last()), ..before }
    }
}

/// A manual session gives back what was recorded: from its start on, the
/// segment handed over holds every sample of every buffer, in order, up to the
/// longest recording.
pub proof fn law_manual_session_keeps_every_sample<S>(
    m: AudioModel<S>,
    session_id: Seq<char>,
    buffers: Seq<Seq<S>>,
)
    requires
        audio_invariant(m),
    ensures
        ({
            let begun = AudioModel {
                manual: Seq::empty(),
                session_id: Some(session_id),
                ..m
            };
            let end = after_recording(begun, buffers);
            &&& end.manual == all_of(buffers).take(
                min_of(all_of(buffers).len() as int, m.manual_max),
            )
            &&& end.session_id == Some(session_id)
            &&& end.manual_max == m.manual_max
        }),
    decreases buffers.len(),
{
    let begun = AudioModel { manual: Seq::<S>::empty(), session_id: Some(session_id), ..m };
    if buffers.len() == 0 {
        assert(all_of(buffers).take(0) =~= Seq::<S>::empty());
    } else {
        law_manual_session_keeps_every_sample(m, session_id, buffers.drop_last());
        let before = after_recording(begun, buffers.drop_last());
        let so_far = all_of(buffers.drop_last());
        let all = all_of(buffers);
        assert(recorded(before, buffers.last()) =~= all.take(
            min_of(all.len() as int, m.manual_max),
        ));
    }
}

/// Shows that a manual recording was handed over: nobody speaks, nothing is
/// heard.
pub fn show_manual_finished<S: Copy>(display: &mut AudioVisualizationData<S>)
    ensures
        final(display)@ == (VisualizationModel {
            is_speaking: false,
            samples: Seq::empty(),
            ..old(display)@
        }),
{
    display.is_speaking = false;
    display.clear_samples();
}

/// The text of the error that a manual recording could not be handed over.
pub fn send_failure_text(reason: &str) -> (r: String)
    ensures
        r@ == "Failed to send manual audio segment: "@ + reason@,
{
    concat("Failed to send manual audio segment: ", reason)
}

/// The path of a recording made at the time `stamp`.
pub fn recording_path_at(dir: &str, stamp: &str) -> (r: String)
    ensures
        r@ == recording_path(dir@, stamp@),
{
    let name = concat3("recording_", stamp, ".wav");
    path_join(dir, name.as_str())
}

/// The path of a recording made now.
pub fn recording_path_now(dir: &str) -> (r: String)
    ensures
        exists|stamp: Seq<char>| r@ == #[trigger] recording_path(dir@, stamp),
{
    let stamp = local_time_text("%Y%m%d_%H%M%S");
    recording_path_at(dir, stamp.as_str())
}

/// A recording never exceeds its limit, and what fits of a buffer is kept: the
/// recording so far, then the buffer from its beginning.
pub proof fn law_recording_keeps_what_fits<S>(m: AudioModel<S>, samples: Seq<S>)
    requires
        audio_invariant(m),
    ensures
        recorded(m, samples).len() == min_of(
            (m.manual.len() + samples.len()) as int,
            m.manual_max,
        ),
        forall|i: int|
            0 <= i < recorded(m, samples).len() ==> #[trigger] recorded(m, samples)[i] == (m.manual
                + samples)[i],
{
}

/// The leading context is the latest of what was received.
pub proof fn law_preroll_is_the_latest<S>(m: AudioModel<S>, samples: Seq<S>)
    requires
        audio_invariant(m),
    ensures
        ({
            let after = after_receive(m, samples).preroll;
            let all = m.preroll + samples;
            &&& after.len() == min_of(all.len() as int, m.preroll_max)
            &&& after == all.skip(all.len() - after.len())
        }),
{
    let all = m.preroll + samples;
    assert(all.skip(0) =~= all);
}

/// What a processor is told, one thing after the other.
pub enum AudioStep<S> {
    /// A buffer came in while recording is on; detection answered whether
    /// somebody speaks.
    Buffer { mode: TranscriptionMode, samples: Seq<S>, speaking: bool },
    /// Recording is off.
    Pause,
    /// A session begins or ends, and leaves this recording.
    Session { session_id: Option<Seq<char>>, manual: Seq<S> },
}

/// `m` after one step.
pub open spec fn after_step<S>(m: AudioModel<S>, step: AudioStep<S>) -> AudioModel<S> {
    match step {
        AudioStep::Buffer { mode, samples, speaking } => after_process(m, mode, samples, speaking),
        AudioStep::Pause => after_pause(m),
        AudioStep::Session { session_id, manual } => AudioModel { session_id, manual, ..m },
    }
}

/// The events of one step.
pub open spec fn step_events<S>(m: AudioModel<S>, step: AudioStep<S>) -> Seq<StreamModel<S>> {
    match step {
        AudioStep::Buffer { mode, samples, speaking } => events_for(
            after_buffer(m, mode, samples, speaking),
            mode,
            samples,
        ),
        AudioStep::Pause => pause_events(m),
        AudioStep::Session { .. } => seq![],
    }
}

/// `m` after a run of steps.
pub open spec fn after_steps<S>(m: AudioModel<S>, steps: Seq<AudioStep<S>>) -> AudioModel<S>
    decreases steps.len(),
{
    if steps.len() == 0 {
        m
    } else {
        after_step(after_steps(m, steps.drop_last()), steps.last())
    }
}

/// The events of a run of steps, in order.
pub open spec fn run_events<S>(m: AudioModel<S>, steps: Seq<AudioStep<S>>) -> Seq<StreamModel<S>>
    decreases steps.len(),
{
    if steps.len() == 0 {
        Seq::empty()
    } else {
        run_events(m, steps.drop_last()) + step_events(
            after_steps(m, steps.drop_last()),
            steps.last(),
        )
    }
}

/// Whether an utterance is open after one more event; `None` where the event
/// is out of turn: a start while one is open, a chunk or an end while none is.
pub open spec fn open_after<S>(open: Option<bool>, event: StreamModel<S>) -> Option<bool> {
    match (open, event) {
        (Some(false), StreamModel::Start { .. }) => Some(true),
        (Some(true), StreamModel::Chunk(_)) => Some(true),
        (Some(true), StreamModel::End) => Some(false),
        _ => None,
    }
}

/// Whether an utterance is open after the events, none being so before them;
/// `None` unless they are utterances one after the other, each a start, chunks
/// and an end, of which the last may still be open.
pub open spec fn utterance_open<S>(events: Seq<StreamModel<S>>) -> Option<bool>
    decreases events.len(),
{
    if events.len() == 0 {
        Some(false)
    } else {
        open_after(utterance_open(events.drop_last()), events.last())
    }
}

/// Whatever buffers come in, whatever is detected in them, and whenever the
/// mode changes, recording is paused or a session begins or ends: the streaming
/// worker hears of whole utterances one after the other, each opened once
/// before its chunks and closed once after them. Whether one is open is what
/// the processor takes it to be.
pub proof fn law_events_are_whole_utterances<S>(m: AudioModel<S>, steps: Seq<AudioStep<S>>)
    requires
        !m.stream_active,
    ensures
        utterance_open(run_events(m, steps)) == Some(after_steps(m, steps).stream_active),
    decreases steps.len(),
{
    if steps.len() > 0 {
        let head = steps.drop_last();
        law_events_are_whole_utterances(m, head);
        let before = run_events(m, head);
        let new = step_events(after_steps(m, head), steps.last());
        let all = run_events(m, steps);
        if new.len() == 0 {
            assert(all =~= before);
        } else if new.len() == 1 {
            assert(all =~= before.push(new[0]));
            assert(all.drop_last() =~= before);
            assert(utterance_open(all) == open_after(utterance_open(before), new[0]));
        } else {
            let opened = before.push(new[0]);
            assert(opened.drop_last() =~= before);
            assert(all =~= opened.push(new[1]));
            assert(all.drop_last() =~= opened);
            assert(utterance_open(opened) == open_after(utterance_open(before), new[0]));
            assert(utterance_open(all) == open_after(utterance_open(opened), new[1]));
        }
    }
}

/// Once recording is off, or a buffer came in manual mode, no utterance is
/// open: the events end with whole utterances.
pub proof fn law_stopping_closes_the_utterance<S>(m: AudioModel<S>, steps: Seq<AudioStep<S>>)
    requires
        !m.stream_active,
        steps.len() > 0,
        steps.last() is Pause || (steps.last() matches AudioStep::Buffer { mode, .. } && mode
            == TranscriptionMode::Manual),
    ensures
        utterance_open(run_events(m, steps)) == Some(false),
{
    law_events_are_whole_utterances(m, steps);
}

/// What one buffer brings: the start of an utterance where none is open and
/// somebody speaks, a chunk while one is open and somebody speaks, its end where
/// nobody does; in manual mode nothing but an end.
pub proof fn law_events_follow_the_utterance<S>(
    m: AudioModel<S>,
    mode: TranscriptionMode,
    samples: Seq<S>,
)
    ensures
        ({
            let events = events_for(m, mode, samples);
            let active = mode == TranscriptionMode::RealTime && m.speaking;
            &&& !m.stream_active && !active ==> events.len() == 0
            &&& !m.stream_active && active ==> events.len() >= 1 && events[0] == (
            StreamModel::<S>::Start { session_id: m.session_id })
            &&& m.stream_active && active ==> events == seq![StreamModel::Chunk(samples)]
            &&& m.stream_active && !active ==> events == seq![StreamModel::<S>::End]
            &&& mode == TranscriptionMode::Manual ==> forall|i: int|
                0 <= i < events.len() ==> #[trigger] events[i] is End
        }),
{
}

/// Segments are sent on whole, in order and in the session at hand; the first
/// gets the leading context in front where nobody was speaking before, and
/// begins that much earlier; nothing else of a segment changes.
pub proof fn law_segments_are_sent_on_whole<S>(
    m: AudioModel<S>,
    segments: Seq<SegmentModel<S>>,
    i: int,
)
    requires
        0 <= i < segments.len(),
    ensures
        ({
            let sent = sent_segments(m, segments);
            let lead = if i == 0 && !m.speaking { m.preroll.len() } else { 0 };
            &&& sent.len() == segments.len()
            &&& sent[i].samples.len() == lead + segments[i].samples.len()
            &&& sent[i].samples.skip(lead as int) == segments[i].samples
            &&& lead > 0 ==> sent[i].samples.take(lead as int) == m.preroll
            &&& sent[i].session_id == m.session_id
            &&& segments[i].start_time >= lead ==> sent[i].start_time == segments[i].start_time
                - lead
            &&& segments[i].start_time >= 0 && segments[i].start_time < lead ==> sent[i].start_time
                == 0
            &&& sent[i].end_time == segments[i].end_time
            &&& sent[i].sample_rate == segments[i].sample_rate
            &&& sent[i].is_manual == segments[i].is_manual
        }),
{
    let sent = sent_segments(m, segments);
    let lead = if i == 0 && !m.speaking { m.preroll.len() } else { 0 };
    if lead > 0 {
        assert((m.preroll + segments[i].samples).skip(lead as int) =~= segments[i].samples);
        assert((m.preroll + segments[i].samples).take(lead as int) =~= m.preroll);
    } else {
        assert(segments[i].samples.skip(0) =~= segments[i].samples);
    }
}

/// The audio that a list of events carries.
pub open spec fn streamed_audio<S>(events: Seq<StreamModel<S>>) -> Seq<S>
    decreases events.len(),
{
    if events.len() == 0 {
        Seq::empty()
    } else {
        let before = streamed_audio(events.drop_last());
        match events.last() {
            StreamModel::Chunk(samples) => before + samples,
            _ => before,
        }
    }
}

/// Buffers that come in while somebody speaks in real-time mode.
pub open spec fn spoken_buffers<S>(buffers: Seq<Seq<S>>) -> Seq<AudioStep<S>> {
    buffers.map_values(
        |b: Seq<S>|
            AudioStep::Buffer { mode: TranscriptionMode::RealTime, samples: b, speaking: true },
    )
}

/// An utterance is streamed without loss: from its first buffer on, the events
/// carry the leading context, which ends with that buffer, and then every sample
/// of every buffer, in order.
pub proof fn law_utterances_are_streamed_whole<S>(m: AudioModel<S>, buffers: Seq<Seq<S>>)
    requires
        !m.stream_active,
        buffers.len() > 0,
        audio_invariant(m),
        buffers[0].len() <= m.preroll_max,
    ensures
        ({
            let events = run_events(m, spoken_buffers(buffers));
            let context = after_receive(m, buffers[0]).preroll;
            &&& streamed_audio(events) == context + all_of(buffers.skip(1))
            &&& context.skip(context.len() - buffers[0].len()) == buffers[0]
            &&& events[0] == (StreamModel::<S>::Start { session_id: m.session_id })
            &&& after_steps(m, spoken_buffers(buffers)).stream_active
            &&& after_steps(m, spoken_buffers(buffers)).session_id == m.session_id
        }),
    decreases buffers.len(),
{
    let steps = spoken_buffers(buffers);
    let head = buffers.drop_last();
    let last = buffers.last();
    let events = run_events(m, steps);
    let all = m.preroll + buffers[0];
    let context = after_receive(m, buffers[0]).preroll;
    assert(steps.drop_last() =~= spoken_buffers(head));
    assert(context.skip(context.len() - buffers[0].len()) =~= buffers[0]) by {
        if all.len() > m.preroll_max {
            assert(context =~= all.skip(all.len() - m.preroll_max));
        } else {
            assert(context =~= all);
        }
    }
    if buffers.len() == 1 {
        assert(run_events(m, steps.drop_last()) =~= Seq::empty());
        assert(after_steps(m, steps.drop_last()) == m);
        let new = step_events(m, steps.last());
        assert(events =~= new);
        assert(all_of(buffers.skip(1)) =~= Seq::empty());
        let start = StreamModel::<S>::Start { session_id: m.session_id };
        reveal_with_fuel(streamed_audio, 3);
        if context.len() > 0 {
            assert(new =~= seq![start, StreamModel::Chunk(context)]);
            assert(new.drop_last() =~= seq![start]);
            assert(seq![start].drop_last() =~= Seq::empty());
            assert(streamed_audio(events) =~= context);
        } else {
            assert(new =~= seq![start]);
            assert(new.drop_last() =~= Seq::empty());
            assert(streamed_audio(events) =~= context);
        }
        assert(context + all_of(buffers.skip(1)) =~= context);
    } else {
        law_utterances_are_streamed_whole(m, head);
        let before = run_events(m, spoken_buffers(head));
        let new = step_events(after_steps(m, spoken_buffers(head)), steps.last());
        assert(new =~= seq![StreamModel::Chunk(last)]);
        assert(events =~= before + new);
        assert(events.drop_last() =~= before);
        assert(head.skip(1) =~= buffers.skip(1).drop_last());
        assert(before.len() > 0) by {
            assert(before[0] is Start);
            lemma_run_starts(m, spoken_buffers(head));
        }
        assert(streamed_audio(events) =~= context + all_of(buffers.skip(1)));
    }
}

proof fn lemma_run_starts<S>(m: AudioModel<S>, steps: Seq<AudioStep<S>>)
    requires
        !m.stream_active,
        after_steps(m, steps).stream_active,
    ensures
        run_events(m, steps).len() > 0,
{
    law_events_are_whole_utterances(m, steps);
}

/// The display shows the beginning of each buffer, as much as it has room for,
/// and whether somebody speaks; the transcript is cleared exactly where that was
/// asked for, once.
pub proof fn law_display_shows_the_buffer<S>(
    m: AudioModel<S>,
    d: VisualizationModel<S>,
    samples: Seq<S>,
    speaking: bool,
)
    requires
        m.buffer_size >= 0,
    ensures
        ({
            let part = shown(m, samples);
            let after = shown_realtime(d, part, speaking);
            &&& part.len() <= m.buffer_size
            &&& part.len() == samples.len() || part.len() == m.buffer_size
            &&& forall|i: int| 0 <= i < part.len() ==> #[trigger] part[i] == samples[i]
            &&& after.samples == part
            &&& after.is_speaking == speaking
            &&& !after.reset_requested
            &&& d.reset_requested ==> after.transcript.len() == 0
            &&& !d.reset_requested ==> after.transcript == d.transcript
            &&& after.processing_state == d.processing_state
        }),
{
}

/// A manual recording is handed over as it is: all of it, from its first sample,
/// marked as manual.
pub proof fn law_recordings_are_handed_over_whole<S>(
    samples: Seq<S>,
    sample_rate: int,
    session_id: Option<Seq<char>>,
)
    ensures
        ({
            let s = manual_segment(samples, sample_rate, session_id);
            &&& s.samples == samples
            &&& s.start_time == 0
            &&& s.end_time == samples.len()
            &&& s.sample_rate == sample_rate
            &&& s.session_id == session_id
            &&& s.is_manual
        }),
{
}

/// A buffer in manual mode joins the recording, as far as it fits, and one in
/// real-time mode does not; either is counted, joins the leading context, and
/// leaves the session and the limits as they are.
pub proof fn law_buffers_go_where_they_belong<S>(
    m: AudioModel<S>,
    mode: TranscriptionMode,
    samples: Seq<S>,
    speaking: bool,
)
    ensures
        ({
            let after = after_process(m, mode, samples, speaking);
            &&& mode == TranscriptionMode::RealTime ==> after.manual == m.manual && after.speaking
                == speaking && after.stream_active == speaking
            &&& mode == TranscriptionMode::Manual ==> after.manual == recorded(m, samples)
                && after.speaking == m.speaking && !after.stream_active
            &&& after.preroll == after_receive(m, samples).preroll
            &&& after.received == m.received.wrapping_add(1)
            &&& after.session_id == m.session_id
            &&& after.buffer_size == m.buffer_size
            &&& after.preroll_max == m.preroll_max
            &&& after.manual_max == m.manual_max
        }),
{
}

/// Pausing forgets the leading context, so that no audio from before it reaches
/// what comes after, and keeps the recording, the session and the count.
pub proof fn law_pausing_forgets_the_context<S>(m: AudioModel<S>, samples: Seq<S>)
    requires
        samples.len() <= m.preroll_max,
    ensures
        ({
            let after = after_pause(m);
            &&& after.preroll.len() == 0
            &&& !after.stream_active
            &&& after.manual == m.manual
            &&& after.session_id == m.session_id
            &&& after.received == m.received
            &&& after.speaking == m.speaking
            &&& after_receive(after, samples).preroll == samples
        }),
{
    assert(Seq::<S>::empty() + samples =~= samples);
}

/// Audio belongs to the realtime session from the start in real-time mode, and to
/// none in manual mode until one begins.
pub proof fn law_first_session()
    ensures
        initial_session(TranscriptionMode::RealTime) == Some("realtime"@),
        initial_session(TranscriptionMode::Manual) is None,
{
}

} // verus!
