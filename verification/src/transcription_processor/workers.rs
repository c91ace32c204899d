//! The decisions of the transcription and streaming workers.

use vstd::prelude::*;
use vstd::string::*;

use crate::real_time_transcriber::{StreamEvent, StreamModel, TranscriptionMessage};
use crate::text::strings::opt_view;
use crate::time::{nanos_between, Instant, NANOS_PER_SEC};

verus! {

/// How long, in seconds, the backend may take before its slowness is noted,
/// and noted again.
pub const WARN_INTERVAL_SECS: u64 = 10;

/// How long, in milliseconds, to wait between looks at the backend.
pub const READY_POLL_MILLIS: u64 = 100;

/// What the transcription worker does before the backend is ready.
#[derive(Debug, Clone, Copy, PartialEq, Eq, Structural)]
pub enum StartupStep {
    /// The backend is ready: begin.
    Begin,
    /// The application is shutting down.
    Quit,
    /// Note that the backend takes long, then wait.
    WarnAndWait,
    /// Wait [`READY_POLL_MILLIS`].
    Wait,
}

/// A look at the backend while the worker waits for it. A warning comes once
/// the interval has passed since the last.
pub open spec fn startup_check(
    ready: bool,
    running: bool,
    last_warn: Instant,
    now: Instant,
) -> StartupStep {
    if ready {
        StartupStep::Begin
    } else if !running {
        StartupStep::Quit
    } else if nanos_between(last_warn, now) >= WARN_INTERVAL_SECS * NANOS_PER_SEC {
        StartupStep::WarnAndWait
    } else {
        StartupStep::Wait
    }
}

/// A look at the backend while the worker waits for it.
pub fn startup_step(ready: bool, running: bool, last_warn: Instant, now: Instant) -> (r: StartupStep)
    ensures
        r == startup_check(ready, running, last_warn, now),
{
    if ready {
        StartupStep::Begin
    } else if !running {
        StartupStep::Quit
    } else if now.duration_since(last_warn) >= WARN_INTERVAL_SECS * NANOS_PER_SEC {
        StartupStep::WarnAndWait
    } else {
        StartupStep::Wait
    }
}

/// What the transcription worker does with what its channel gave.
#[derive(Debug, Clone, Copy, PartialEq, Eq, Structural)]
pub enum WorkerStep {
    /// Take the next segment, waiting for it.
    Receive,
    /// Take whatever segments are there, without waiting, and end.
    DrainAndStop,
    /// Wait [`READY_POLL_MILLIS`] for the backend, holding the segment.
    AwaitBackend,
    /// Transcribe the segment.
    Transcribe,
    /// The channel is closed: end.
    Stop,
}

/// What the worker does next. `received` is what the channel gave: nothing
/// asked of it yet, a segment, or its end.
pub open spec fn worker_check(received: Option<bool>, ready: bool, running: bool) -> WorkerStep {
    match received {
        None => if running {
            WorkerStep::Receive
        } else {
            WorkerStep::DrainAndStop
        },
        Some(true) => if !ready && running {
            WorkerStep::AwaitBackend
        } else {
            WorkerStep::Transcribe
        },
        Some(false) => WorkerStep::Stop,
    }
}

/// What the worker does next. A segment that has been received is transcribed
/// even when the application shuts down.
pub fn worker_step(received: Option<bool>, ready: bool, running: bool) -> (r: WorkerStep)
    ensures
        r == worker_check(received, ready, running),
{
    match received {
        None => if running {
            WorkerStep::Receive
        } else {
            WorkerStep::DrainAndStop
        },
        Some(segment) => if !segment {
            WorkerStep::Stop
        } else if !ready && running {
            WorkerStep::AwaitBackend
        } else {
            WorkerStep::Transcribe
        },
    }
}

/// The streaming worker: the utterance under way.
#[derive(Debug)]
pub struct StreamingWorker {
    /// The session of the utterance.
    pub session_id: Option<String>,
    /// The utterance is streamed.
    pub active: bool,
}

/// What the streaming worker has the backend do.
#[derive(Debug)]
pub enum StreamStep<S> {
    /// The application is shutting down: end.
    Stop,
    /// Nothing.
    Skip,
    /// Begin an utterance.
    Reset,
    /// Take in audio, and give the text so far.
    Push(Vec<S>),
    /// End the utterance, and give its text.
    Finish,
}

/// What a [`StreamStep`] holds.
pub enum StreamStepModel<S> {
    Stop,
    Skip,
    Reset,
    Push(Seq<S>),
    Finish,
}

impl<S> View for StreamStep<S> {
    type V = StreamStepModel<S>;

    open spec fn view(&self) -> StreamStepModel<S> {
        match self {
            StreamStep::Stop => StreamStepModel::Stop,
            StreamStep::Skip => StreamStepModel::Skip,
            StreamStep::Reset => StreamStepModel::Reset,
            StreamStep::Push(samples) => StreamStepModel::Push(samples@),
            StreamStep::Finish => StreamStepModel::Finish,
        }
    }
}

/// What the streaming worker knows.
pub struct StreamingModel {
    pub session_id: Option<Seq<char>>,
    pub active: bool,
}

impl View for StreamingWorker {
    type V = StreamingModel;

    open spec fn view(&self) -> StreamingModel {
        StreamingModel { session_id: opt_view(self.session_id), active: self.active }
    }
}

/// The worker after an event, and what it has the backend do. `streams` tells
/// whether the backend streams, where one is loaded; events that come while
/// none is ready are dropped.
pub open spec fn on_stream_event<S>(
    w: StreamingModel,
    event: StreamModel<S>,
    running: bool,
    streams: Option<bool>,
    ready: bool,
) -> (StreamingModel, StreamStepModel<S>) {
    if !running {
        (w, StreamStepModel::Stop)
    } else if streams is None || !ready {
        (w, StreamStepModel::Skip)
    } else {
        match event {
            StreamModel::Start { session_id } => (
                StreamingModel { session_id, active: streams->0 },
                if streams->0 {
                    StreamStepModel::Reset
                } else {
                    StreamStepModel::Skip
                },
            ),
            StreamModel::Chunk(samples) => (
                w,
                if w.active {
                    StreamStepModel::Push(samples)
                } else {
                    StreamStepModel::Skip
                },
            ),
            StreamModel::End => (
                StreamingModel { active: false, ..w },
                if w.active {
                    StreamStepModel::Finish
                } else {
                    StreamStepModel::Skip
                },
            ),
        }
    }
}

impl StreamingWorker {
    /// A worker with no utterance.
    pub fn new() -> (r: Self)
        ensures
            r@ == (StreamingModel { session_id: None, active: false }),
    {
        StreamingWorker { session_id: None, active: false }
    }

    /// Takes in an event.
    pub fn on_event<S>(
        &mut self,
        event: StreamEvent<S>,
        running: bool,
        streams: Option<bool>,
        ready: bool,
    ) -> (r: StreamStep<S>)
        ensures
            (final(self)@, r@) == on_stream_event(old(self)@, event@, running, streams, ready),
    {
        if !running {
            return StreamStep::Stop;
        }
        let supported = match streams {
            Some(supported) => supported,
            None => return StreamStep::Skip,
        };
        if !ready {
            return StreamStep::Skip;
        }
        match event {
            StreamEvent::Start { session_id } => {
                self.session_id = session_id;
                self.active = supported;
                if supported {
                    StreamStep::Reset
                } else {
                    StreamStep::Skip
                }
            },
            StreamEvent::Chunk(samples) => if self.active {
                StreamStep::Push(samples)
            } else {
                StreamStep::Skip
            },
            StreamEvent::End => if self.active {
                self.active = false;
                StreamStep::Finish
            } else {
                StreamStep::Skip
            },
        }
    }

    /// The message that a text from the backend becomes: interim, and none
    /// where there is no text. The segment path commits the final one.
    pub fn interim_message(&self, text: Option<String>) -> (r: Option<TranscriptionMessage>)
        ensures
            match text {
                Some(t) if t@.len() > 0 => {
                    &&& r matches Some(m)
                    &&& m.text@ == t@
                    &&& opt_view(m.session_id) == self@.session_id
                    &&& !m.is_final
                },
                _ => r is None,
            },
    {
        match text {
            Some(t) => if t.as_str().unicode_len() > 0 {
                Some(
                    TranscriptionMessage {
                        text: t,
                        session_id: match &self.session_id {
                            Some(id) => Some(id.clone()),
                            None => None,
                        },
                        is_final: false,
                    },
                )
            } else {
                None
            },
            None => None,
        }
    }
}

/// The worker after events that came while the application was running.
pub open spec fn after_events<S>(
    w: StreamingModel,
    events: Seq<StreamModel<S>>,
    streams: Option<bool>,
    ready: bool,
) -> StreamingModel
    decreases events.len(),
{
    if events.len() == 0 {
        w
    } else {
        let before = after_events(w, events.drop_last(), streams, ready);
        on_stream_event(before, events.last(), true, streams, ready).0
    }
}

/// A backend that does not stream is left alone: once an utterance has begun
/// with it, no event asks it for anything, whatever came before.
pub proof fn law_other_backends_stay_silent<S>(
    w: StreamingModel,
    session_id: Option<Seq<char>>,
    events: Seq<StreamModel<S>>,
    next: StreamModel<S>,
    ready: bool,
)
    ensures
        ({
            let start = StreamModel::<S>::Start { session_id };
            let (begun, step) = on_stream_event(w, start, true, Some(false), true);
            let later = after_events(begun, events, Some(false), ready);
            &&& step == StreamStepModel::<S>::Skip
            &&& on_stream_event(later, next, true, Some(false), ready).1
                == StreamStepModel::<S>::Skip
        }),
{
    let start = StreamModel::<S>::Start { session_id };
    let begun = on_stream_event(w, start, true, Some(false), true).0;
    lemma_stays_inactive(begun, events, ready);
}

proof fn lemma_stays_inactive<S>(w: StreamingModel, events: Seq<StreamModel<S>>, ready: bool)
    requires
        !w.active,
    ensures
        !after_events(w, events, Some(false), ready).active,
    decreases events.len(),
{
    if events.len() > 0 {
        lemma_stays_inactive(w, events.drop_last(), ready);
    }
}

/// An utterance is streamed as it comes: begun with a backend that streams,
/// each piece of audio up to the end is handed on, and the end ends it.
pub proof fn law_utterances_are_streamed<S>(
    w: StreamingModel,
    session_id: Option<Seq<char>>,
    chunks: Seq<Seq<S>>,
    chunk: Seq<S>,
)
    ensures
        ({
            let start = StreamModel::<S>::Start { session_id };
            let (begun, step) = on_stream_event(w, start, true, Some(true), true);
            let events = chunks.map_values(|c: Seq<S>| StreamModel::Chunk(c));
            let later = after_events(begun, events, Some(true), true);
            &&& step == StreamStepModel::<S>::Reset
            &&& later == (StreamingModel { session_id, active: true })
            &&& on_stream_event(later, StreamModel::Chunk(chunk), true, Some(true), true).1
                == StreamStepModel::Push(chunk)
            &&& on_stream_event(later, StreamModel::<S>::End, true, Some(true), true) == (
                StreamingModel { session_id, active: false },
                StreamStepModel::<S>::Finish,
            )
        }),
{
    let start = StreamModel::<S>::Start { session_id };
    let begun = on_stream_event(w, start, true, Some(true), true).0;
    lemma_chunks_change_nothing(begun, chunks);
}

proof fn lemma_chunks_change_nothing<S>(w: StreamingModel, chunks: Seq<Seq<S>>)
    ensures
        after_events(
            w,
            chunks.map_values(|c: Seq<S>| StreamModel::Chunk(c)),
            Some(true),
            true,
        ) == w,
    decreases chunks.len(),
{
    let events = chunks.map_values(|c: Seq<S>| StreamModel::Chunk(c));
    if chunks.len() > 0 {
        lemma_chunks_change_nothing(w, chunks.drop_last());
        assert(events.drop_last() =~= chunks.drop_last().map_values(
            |c: Seq<S>| StreamModel::Chunk(c),
        ));
    }
}

/// A segment that was received is never lost: whatever the backend and the
/// application do, the worker transcribes it or goes on holding it, and holds it
/// only while the application runs and the backend is not ready.
pub proof fn law_received_segments_are_transcribed(ready: bool, running: bool)
    ensures
        worker_check(Some(true), ready, running) == (if ready || !running {
            WorkerStep::Transcribe
        } else {
            WorkerStep::AwaitBackend
        }),
        worker_check(Some(false), ready, running) == WorkerStep::Stop,
        worker_check(None, ready, true) == WorkerStep::Receive,
        worker_check(None, ready, false) == WorkerStep::DrainAndStop,
{
}

/// The worker begins as soon as the backend is ready, quits only before that, and
/// notes every ten seconds that it waits.
pub proof fn law_worker_waits_for_the_backend(running: bool, last_warn: Instant, now: Instant)
    ensures
        startup_check(true, running, last_warn, now) == StartupStep::Begin,
        startup_check(false, false, last_warn, now) == StartupStep::Quit,
        startup_check(false, true, last_warn, now) == (if nanos_between(last_warn, now)
            >= 10_000_000_000 {
            StartupStep::WarnAndWait
        } else {
            StartupStep::Wait
        }),
{
}

/// What an event has the backend do, while it is ready and the application runs:
/// audio reaches it as it came, and only within an utterance that it streams; an
/// event at another time changes nothing.
pub proof fn law_events_reach_the_backend<S>(
    w: StreamingModel,
    event: StreamModel<S>,
    running: bool,
    streams: Option<bool>,
    ready: bool,
)
    ensures
        ({
            let (after, step) = on_stream_event(w, event, running, streams, ready);
            &&& !running ==> step == StreamStepModel::<S>::Stop && after == w
            &&& running && (streams is None || !ready) ==> step == StreamStepModel::<S>::Skip
                && after == w
            &&& running && streams is Some && ready ==> match event {
                StreamModel::Start { session_id } => {
                    &&& after.session_id == session_id
                    &&& after.active == streams->0
                    &&& step == (if streams->0 {
                        StreamStepModel::<S>::Reset
                    } else {
                        StreamStepModel::<S>::Skip
                    })
                },
                StreamModel::Chunk(samples) => after == w && step == (if w.active {
                    StreamStepModel::Push(samples)
                } else {
                    StreamStepModel::Skip
                }),
                StreamModel::End => {
                    &&& !after.active
                    &&& after.session_id == w.session_id
                    &&& step == (if w.active {
                        StreamStepModel::<S>::Finish
                    } else {
                        StreamStepModel::<S>::Skip
                    })
                },
            }
        }),
{
}

/// A text from a stream becomes an interim message, never a final one, of the
/// utterance's session.
pub proof fn law_streams_give_interim_messages(
    worker: &StreamingWorker,
    text: Option<String>,
    r: Option<TranscriptionMessage>,
)
    requires
        call_ensures(StreamingWorker::interim_message, (worker, text), r),
    ensures
        r is Some <==> (text matches Some(t) && t@.len() > 0),
        r matches Some(m) ==> !m.is_final && m.text@ == text->0@ && opt_view(m.session_id)
            == worker@.session_id,
{
}

} // verus!
