//! Audio capture: when the input device is opened, started and given up.
//!
//! The device is driven outside, by the commands handed out here; what it
//! reports (callbacks counted, stream active or not) comes back as arguments.

use vstd::prelude::*;

use crate::text::numbers::{decimal, decimal_text};
use crate::text::strings::concat;
use crate::time::{nanos_between, Instant};

verus! {

/// How long, in nanoseconds, the capture callback may go silent before the
/// device is treated as gone.
pub const CALLBACK_STALL_TIMEOUT: u64 = 1_000_000_000;

/// Frames per buffer of a capture made without a size of its own.
pub const DEFAULT_BUFFER_SIZE: usize = 1024;

/// One step in driving the input device.
#[derive(Debug, Clone, Copy, PartialEq, Eq, Structural)]
pub enum StreamCommand {
    /// Stop the stream, letting it drain.
    Stop,
    /// Stop the stream at once: a device that is gone never drains.
    Abort,
    /// Close the stream and release the audio system.
    Close,
    /// Bring up the audio system and look up the default input device.
    Initialize,
    /// Open an input stream on the device.
    Open,
    /// Start the stream.
    Start,
    /// Start the stream unless it is active.
    StartIfInactive,
    /// Stop the stream, letting it drain, if it is active.
    StopIfActive,
}

/// Why capture cannot proceed.
#[derive(Debug, Clone, Copy, PartialEq, Eq, Structural)]
pub enum CaptureError {
    /// The stream was to be opened before capture was started.
    NotStarted,
    /// The stream was to be started before it was opened.
    NoStream,
    /// The buffer size does not fit the device's 32 bits.
    BufferTooLarge(usize),
}

/// The text of a capture error.
pub open spec fn capture_error_text(e: CaptureError) -> Seq<char> {
    match e {
        CaptureError::NotStarted => "Audio capture has not been started"@,
        CaptureError::NoStream => "No audio input stream"@,
        CaptureError::BufferTooLarge(n) => "Audio buffer size too large: "@ + decimal(n as nat),
    }
}

impl CaptureError {
    /// The text of the error.
    pub fn message(&self) -> (r: String)
        ensures
            r@ == capture_error_text(*self),
    {
        match self {
            CaptureError::NotStarted => "Audio capture has not been started".to_owned(),
            CaptureError::NoStream => "No audio input stream".to_owned(),
            CaptureError::BufferTooLarge(n) => concat(
                "Audio buffer size too large: ",
                decimal_text(*n as u64).as_str(),
            ),
        }
    }
}

/// What is made of a buffer that the device delivers.
#[derive(Debug, Clone, Copy, PartialEq, Eq, Structural)]
pub struct CallbackDecision {
    /// Send the samples on.
    pub send: bool,
    /// Keep the stream going.
    pub keep_running: bool,
}

/// The capture callback: samples are sent on only while recording, and the
/// stream goes on for as long as the application runs.
pub fn callback_decision(recording: bool, running: bool) -> (r: CallbackDecision)
    ensures
        r == (CallbackDecision { send: recording, keep_running: running }),
{
    CallbackDecision { send: recording, keep_running: running }
}

/// What a check of the callback counter says: whether it has stood still for
/// the whole timeout, and what to compare the next check with.
pub open spec fn stall_check(seen: Option<(usize, Instant)>, sent: usize, now: Instant) -> (
    bool,
    Option<(usize, Instant)>,
) {
    match seen {
        Some((last_sent, since)) if last_sent == sent => (
            nanos_between(since, now) >= CALLBACK_STALL_TIMEOUT,
            seen,
        ),
        _ => (false, Some((sent, now))),
    }
}

/// Pure half of stall detection: whether the callback has been frozen past
/// the timeout, along with the observation to carry into the next check.
pub fn callback_stalled(seen: Option<(usize, Instant)>, sent: usize, now: Instant) -> (r: (
    bool,
    Option<(usize, Instant)>,
))
    ensures
        r == stall_check(seen, sent, now),
{
    match seen {
        Some((last_sent, since)) => if last_sent == sent {
            (now.duration_since(since) >= CALLBACK_STALL_TIMEOUT, seen)
        } else {
            (false, Some((sent, now)))
        },
        None => (false, Some((sent, now))),
    }
}

/// A device still delivering samples never counts as stalled.
pub proof fn law_advancing_counter_never_stalls(
    seen: Option<(usize, Instant)>,
    sent: usize,
    now: Instant,
)
    requires
        !(seen matches Some((last, _)) && last == sent),
    ensures
        stall_check(seen, sent, now) == (false, Some((sent, now))),
{
}

/// The observation after checks at the given times, all with the counter at
/// `sent`.
pub open spec fn after_checks(
    seen: Option<(usize, Instant)>,
    sent: usize,
    times: Seq<Instant>,
) -> Option<(usize, Instant)>
    decreases times.len(),
{
    if times.len() == 0 {
        seen
    } else {
        stall_check(after_checks(seen, sent, times.drop_last()), sent, times.last()).1
    }
}

/// The window accumulates over checks: however many there are in between, a
/// frozen counter is found stalled once the timeout has passed since it was
/// first seen, and not before.
pub proof fn law_frozen_window_accumulates(
    sent: usize,
    first: Instant,
    between: Seq<Instant>,
    last: Instant,
)
    ensures
        ({
            let armed = stall_check(None, sent, first).1;
            let again = after_checks(armed, sent, between);
            stall_check(again, sent, last).0 == (nanos_between(first, last)
                >= CALLBACK_STALL_TIMEOUT)
        }),
{
    lemma_first_sighting_stays(sent, first, between);
}

proof fn lemma_first_sighting_stays(sent: usize, first: Instant, times: Seq<Instant>)
    ensures
        after_checks(Some((sent, first)), sent, times) == Some((sent, first)),
    decreases times.len(),
{
    if times.len() > 0 {
        lemma_first_sighting_stays(sent, first, times.drop_last());
    }
}

/// The capture side: what is known of the device between commands.
#[derive(Debug)]
pub struct AudioCapture {
    /// Frames per buffer.
    pub buffer_size: usize,
    /// Capture was started and not stopped.
    pub started: bool,
    /// The audio system is up.
    pub initialized: bool,
    /// There is a stream.
    pub stream_open: bool,
    /// Last observed callback count and when it was observed.
    pub callback_seen: Option<(usize, Instant)>,
    /// When recovery was last attempted.
    pub last_recovery_attempt: Option<Instant>,
}

/// Commands that take down the stream, if there is one, and the audio system.
pub open spec fn close_commands(c: AudioCapture, graceful: bool) -> Seq<StreamCommand> {
    if c.stream_open {
        seq![if graceful { StreamCommand::Stop } else { StreamCommand::Abort }, StreamCommand::Close]
    } else if c.initialized {
        seq![StreamCommand::Close]
    } else {
        seq![]
    }
}

/// Commands that open a stream anew.
pub open spec fn open_commands(initialized: bool, recording: bool) -> Seq<StreamCommand> {
    (if initialized {
        seq![]
    } else {
        seq![StreamCommand::Initialize]
    }) + seq![StreamCommand::Open] + (if recording {
        seq![StreamCommand::Start]
    } else {
        seq![]
    })
}

/// Commands that take down whatever there is, without waiting for it, and, once
/// capture was started, build a stream anew and start it.
pub open spec fn rebuild_commands(c: AudioCapture, recording: bool) -> Seq<StreamCommand> {
    close_commands(c, false) + (if c.started {
        open_commands(false, recording).push(StreamCommand::StartIfInactive)
    } else {
        seq![]
    })
}

/// Nothing left of stream and audio system.
pub open spec fn closed_capture(c: AudioCapture) -> AudioCapture {
    AudioCapture { initialized: false, stream_open: false, callback_seen: None, ..c }
}

impl AudioCapture {
    /// A capture with the default buffer size.
    pub fn new() -> (r: Self)
        ensures
            r == (AudioCapture {
                buffer_size: DEFAULT_BUFFER_SIZE,
                started: false,
                initialized: false,
                stream_open: false,
                callback_seen: None,
                last_recovery_attempt: None,
            }),
    {
        Self::with_buffer_size(DEFAULT_BUFFER_SIZE)
    }

    /// A capture that has not been started.
    pub fn with_buffer_size(buffer_size: usize) -> (r: Self)
        ensures
            r == (AudioCapture {
                buffer_size,
                started: false,
                initialized: false,
                stream_open: false,
                callback_seen: None,
                last_recovery_attempt: None,
            }),
    {
        AudioCapture {
            buffer_size,
            started: false,
            initialized: false,
            stream_open: false,
            callback_seen: None,
            last_recovery_attempt: None,
        }
    }

    /// Frames per buffer as the device takes it.
    pub fn frames_per_buffer(&self) -> (r: Result<u32, CaptureError>)
        ensures
            match r {
                Ok(n) => n == self.buffer_size,
                Err(e) => self.buffer_size > u32::MAX && e == CaptureError::BufferTooLarge(
                    self.buffer_size,
                ),
            },
    {
        if self.buffer_size as u64 > u32::MAX as u64 {
            Err(CaptureError::BufferTooLarge(self.buffer_size))
        } else {
            Ok(self.buffer_size as u32)
        }
    }

    /// Starts capture: the stream is opened, and runs if recording is on.
    pub fn start(&mut self, recording: bool) -> (r: Vec<StreamCommand>)
        ensures
            *final(self) == (AudioCapture { started: true, ..*old(self) }),
            r@ == open_commands(old(self).initialized, recording),
    {
        self.started = true;
        self.open_plan(recording)
    }

    fn open_plan(&self, recording: bool) -> (r: Vec<StreamCommand>)
        ensures
            r@ == open_commands(self.initialized, recording),
    {
        let mut plan: Vec<StreamCommand> = Vec::new();
        if !self.initialized {
            plan.push(StreamCommand::Initialize);
        }
        plan.push(StreamCommand::Open);
        if recording {
            plan.push(StreamCommand::Start);
        }
        assert(plan@ =~= open_commands(self.initialized, recording));
        plan
    }

    /// Reports how far the commands of a plan came: whether the audio system
    /// is up and whether there is a stream.
    pub fn device_reported(&mut self, initialized: bool, stream_open: bool)
        ensures
            *final(self) == (AudioCapture { initialized, stream_open, ..*old(self) }),
    {
        self.initialized = initialized;
        self.stream_open = stream_open;
    }

    /// Tears down stream and audio system, keeping what is needed to build
    /// them again.
    pub fn close_stream(&mut self, graceful: bool) -> (r: Vec<StreamCommand>)
        ensures
            r@ == close_commands(*old(self), graceful),
            *final(self) == closed_capture(*old(self)),
    {
        let mut plan: Vec<StreamCommand> = Vec::new();
        if self.stream_open {
            plan.push(if graceful { StreamCommand::Stop } else { StreamCommand::Abort });
        }
        if self.stream_open || self.initialized {
            plan.push(StreamCommand::Close);
        }
        assert(plan@ =~= close_commands(*self, graceful));
        self.initialized = false;
        self.stream_open = false;
        self.callback_seen = None;
        plan
    }

    /// Rebuilds the device from scratch. The old stream is torn down whether
    /// or not a new one can be opened.
    fn reopen_plan(&mut self, recording: bool) -> (r: (Vec<StreamCommand>, bool))
        ensures
            *final(self) == closed_capture(*old(self)),
            r.1 == old(self).started,
            r.0@ == rebuild_commands(*old(self), recording),
    {
        let mut plan = self.close_stream(false);
        if !self.started {
            return (plan, false);
        }
        let mut opening = self.open_plan(recording);
        opening.push(StreamCommand::StartIfInactive);
        plan.append(&mut opening);
        (plan, true)
    }

    /// Begins recording. The device is always rebuilt first: a stream kept
    /// from an earlier session may have gone stale, and nothing tells.
    pub fn start_recording(&mut self, recording: bool) -> (r: (
        Vec<StreamCommand>,
        Result<(), CaptureError>,
    ))
        ensures
            *final(self) == closed_capture(*old(self)),
            r.0@ == rebuild_commands(*old(self), recording),
            r.1 == (if old(self).started {
                Ok::<(), CaptureError>(())
            } else {
                Err(CaptureError::NotStarted)
            }),
    {
        let (plan, ok) = self.reopen_plan(recording);
        if ok {
            (plan, Ok(()))
        } else {
            (plan, Err(CaptureError::NotStarted))
        }
    }

    /// Ends recording; the stream is kept.
    pub fn stop_recording(&self) -> (r: Vec<StreamCommand>)
        ensures
            r@ == (if self.stream_open {
                seq![StreamCommand::StopIfActive]
            } else {
                seq![]
            }),
    {
        let mut plan: Vec<StreamCommand> = Vec::new();
        if self.stream_open {
            plan.push(StreamCommand::StopIfActive);
        }
        plan
    }

    /// Pauses capture without closing the stream.
    pub fn pause(&self) -> (r: Vec<StreamCommand>)
        ensures
            r@ == (if self.stream_open {
                seq![StreamCommand::StopIfActive]
            } else {
                seq![]
            }),
    {
        self.stop_recording()
    }

    /// Resumes capture after a pause.
    pub fn resume(&mut self, recording: bool) -> (r: (
        Vec<StreamCommand>,
        Result<(), CaptureError>,
    ))
        ensures
            *final(self) == closed_capture(*old(self)),
            r.0@ == rebuild_commands(*old(self), recording),
            r.1 == (if old(self).started {
                Ok::<(), CaptureError>(())
            } else {
                Err(CaptureError::NotStarted)
            }),
    {
        self.start_recording(recording)
    }

    /// Stops capture for good.
    pub fn stop(&mut self) -> (r: Vec<StreamCommand>)
        ensures
            r@ == close_commands(*old(self), true),
            *final(self) == (AudioCapture { started: false, ..closed_capture(*old(self)) }),
    {
        let plan = self.close_stream(true);
        self.started = false;
        plan
    }

    /// Whether a recovery at `now` would come too soon after the last one.
    pub open spec fn recovery_too_soon(self, now: Instant) -> bool {
        match self.last_recovery_attempt {
            Some(attempted) => nanos_between(attempted, now) < CALLBACK_STALL_TIMEOUT,
            None => false,
        }
    }

    /// Rebuilds the device if the callback has stopped firing or the stream
    /// is dead, at most once per timeout. `None` where nothing is to be done.
    pub fn recover_if_stalled(
        &mut self,
        sent: usize,
        stream_active: bool,
        recording: bool,
        now: Instant,
    ) -> (r: Option<(Vec<StreamCommand>, Result<(), CaptureError>)>)
        ensures
            ({
                let (stalled, seen) = stall_check(old(self).callback_seen, sent, now);
                let dead = !(old(self).stream_open && stream_active);
                if old(self).recovery_too_soon(now) {
                    r is None && *final(self) == *old(self)
                } else if !stalled && !dead {
                    r is None && *final(self) == (AudioCapture { callback_seen: seen, ..*old(self) })
                } else {
                    &&& r matches Some((plan, result))
                    &&& plan@ == rebuild_commands(*old(self), recording)
                    &&& result is Ok == old(self).started
                    &&& result is Err ==> result->Err_0 == CaptureError::NotStarted
                    &&& *final(self) == (AudioCapture {
                        last_recovery_attempt: Some(now),
                        ..closed_capture(*old(self))
                    })
                }
            }),
    {
        if let Some(attempted) = self.last_recovery_attempt {
            if now.duration_since(attempted) < CALLBACK_STALL_TIMEOUT {
                return None;
            }
        }
        let (stalled, seen) = callback_stalled(self.callback_seen, sent, now);
        self.callback_seen = seen;
        let dead = !(self.stream_open && stream_active);
        if !stalled && !dead {
            return None;
        }
        self.last_recovery_attempt = Some(now);
        self.callback_seen = None;
        let (plan, ok) = self.reopen_plan(recording);
        if ok {
            Some((plan, Ok(())))
        } else {
            Some((plan, Err(CaptureError::NotStarted)))
        }
    }
}

impl Default for AudioCapture {
    fn default() -> (r: Self)
        ensures
            r == (AudioCapture {
                buffer_size: DEFAULT_BUFFER_SIZE,
                started: false,
                initialized: false,
                stream_open: false,
                callback_seen: None,
                last_recovery_attempt: None,
            }),
    {
        Self::new()
    }
}

/// An input device: what is up, and what runs.
pub struct Device {
    /// The audio system is up.
    pub up: bool,
    /// There is a stream.
    pub open: bool,
    /// The stream is running.
    pub active: bool,
}

/// The device after a command; `None` where it makes no sense: a stream is opened
/// only where the audio system is up and there is none, and stopped or started
/// only where there is one.
pub open spec fn device_after(d: Device, command: StreamCommand) -> Option<Device> {
    match command {
        StreamCommand::Initialize => if d.up {
            None
        } else {
            Some(Device { up: true, ..d })
        },
        StreamCommand::Open => if d.up && !d.open {
            Some(Device { open: true, active: false, ..d })
        } else {
            None
        },
        StreamCommand::Start => if d.open && !d.active {
            Some(Device { active: true, ..d })
        } else {
            None
        },
        StreamCommand::StartIfInactive => if d.open {
            Some(Device { active: true, ..d })
        } else {
            None
        },
        StreamCommand::Stop | StreamCommand::Abort => if d.open {
            Some(Device { active: false, ..d })
        } else {
            None
        },
        StreamCommand::StopIfActive => if d.open {
            Some(Device { active: false, ..d })
        } else {
            None
        },
        StreamCommand::Close => if d.up && !d.active {
            Some(Device { up: false, open: false, active: false })
        } else {
            None
        },
    }
}

/// The device after several commands; `None` where one of them makes no sense.
pub open spec fn device_run(d: Device, commands: Seq<StreamCommand>) -> Option<Device>
    decreases commands.len(),
{
    if commands.len() == 0 {
        Some(d)
    } else {
        match device_after(d, commands[0]) {
            Some(next) => device_run(next, commands.skip(1)),
            None => None,
        }
    }
}

proof fn lemma_device_runs(d: Device, a: Seq<StreamCommand>, b: Seq<StreamCommand>)
    ensures
        device_run(d, a + b) == (match device_run(d, a) {
            Some(next) => device_run(next, b),
            None => None,
        }),
    decreases a.len(),
{
    if a.len() == 0 {
        assert(a + b =~= b);
    } else {
        assert((a + b)[0] == a[0]);
        assert((a + b).skip(1) =~= a.skip(1) + b);
        if let Some(next) = device_after(d, a[0]) {
            lemma_device_runs(next, a.skip(1), b);
        }
    }
}

proof fn lemma_device_opens(d: Device, recording: bool)
    requires
        !d.open,
    ensures
        device_run(d, open_commands(d.up, recording)) == Some(
            Device { up: true, open: true, active: recording },
        ),
{
    reveal_with_fuel(device_run, 4);
    let c = open_commands(d.up, recording);
    if d.up {
        assert(c[0] == StreamCommand::Open);
        assert(c.skip(1) =~= if recording {
            seq![StreamCommand::Start]
        } else {
            seq![]
        });
    } else {
        assert(c[0] == StreamCommand::Initialize);
        assert(c.skip(1)[0] == StreamCommand::Open);
        assert(c.skip(1).skip(1) =~= if recording {
            seq![StreamCommand::Start]
        } else {
            seq![]
        });
    }
    assert(seq![StreamCommand::Start].skip(1) =~= Seq::empty());
}

proof fn lemma_device_closes(c: AudioCapture, d: Device, graceful: bool)
    requires
        d.up == c.initialized,
        d.open == c.stream_open,
        d.open ==> d.up,
        d.active ==> d.open,
    ensures
        device_run(d, close_commands(c, graceful)) == Some(
            Device { up: false, open: false, active: false },
        ),
        forall|i: int|
            0 <= i < close_commands(c, graceful).len() ==> #[trigger] close_commands(c, graceful)[i]
                != (if graceful { StreamCommand::Abort } else { StreamCommand::Stop }),
{
    reveal_with_fuel(device_run, 3);
    let k = close_commands(c, graceful);
    if c.stream_open {
        assert(k.skip(1) =~= seq![StreamCommand::Close]);
        assert(k.skip(1).skip(1) =~= Seq::empty());
    } else if c.initialized {
        assert(k.skip(1) =~= Seq::empty());
    }
}

/// Starting to record, resuming and recovering rebuild the device: from whatever
/// state it is in every command makes sense, and in the end a fresh stream runs;
/// the old one is never waited for. Where capture was not started, all is taken
/// down and stays so.
pub proof fn law_rebuilding_leaves_a_running_stream(
    c: AudioCapture,
    d: Device,
    recording: bool,
)
    requires
        d.up == c.initialized,
        d.open == c.stream_open,
        d.open ==> d.up,
        d.active ==> d.open,
    ensures
        device_run(d, rebuild_commands(c, recording)) == Some(
            if c.started {
                Device { up: true, open: true, active: true }
            } else {
                Device { up: false, open: false, active: false }
            },
        ),
        !rebuild_commands(c, recording).contains(StreamCommand::Stop),
        !rebuild_commands(c, recording).contains(StreamCommand::StopIfActive),
{
    let plan = rebuild_commands(c, recording);
    let down = Device { up: false, open: false, active: false };
    lemma_device_closes(c, d, false);
    let opening = open_commands(false, recording);
    let last = seq![StreamCommand::StartIfInactive];
    if c.started {
        lemma_device_runs(d, close_commands(c, false), opening + last);
        assert(plan =~= close_commands(c, false) + (opening + last));
        lemma_device_opens(down, recording);
        lemma_device_runs(down, opening, last);
        reveal_with_fuel(device_run, 2);
        assert(last.skip(1) =~= Seq::empty());
    } else {
        assert(plan =~= close_commands(c, false));
    }
}

/// Stopping for good lets the stream drain and takes everything down; starting
/// capture opens a stream, which runs exactly where recording is on.
pub proof fn law_starting_and_stopping(c: AudioCapture, d: Device, recording: bool)
    requires
        d.up == c.initialized,
        d.open == c.stream_open,
        d.open ==> d.up,
        d.active ==> d.open,
    ensures
        device_run(d, close_commands(c, true)) == Some(
            Device { up: false, open: false, active: false },
        ),
        !close_commands(c, true).contains(StreamCommand::Abort),
        !d.open ==> device_run(d, open_commands(c.initialized, recording)) == Some(
            Device { up: true, open: true, active: recording },
        ),
{
    lemma_device_closes(c, d, true);
    if !d.open {
        lemma_device_opens(d, recording);
    }
}

/// A counter that stands still for a second is found stalled, and a recovery is
/// attempted again only a second after the last.
pub proof fn law_a_second_without_callbacks_is_a_stall(
    c: AudioCapture,
    sent: usize,
    since: Instant,
    now: Instant,
)
    ensures
        stall_check(Some((sent, since)), sent, now).0 <==> nanos_between(since, now)
            >= 1_000_000_000,
        c.last_recovery_attempt == Some(since) ==> (c.recovery_too_soon(now) <==> nanos_between(
            since,
            now,
        ) < 1_000_000_000),
        c.last_recovery_attempt is None ==> !c.recovery_too_soon(now),
{
}

} // verus!
