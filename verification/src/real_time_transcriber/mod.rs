//! Coordination of transcription: modes, manual sessions, and the commands
//! that start, stop, cancel and finish them.

pub mod sessions;
pub mod transcriber;

use vstd::prelude::*;

use crate::text::chars::{all_ascii, ascii_lowercase, lowercase_text, to_lowercase_text};
use crate::text::strings::{same_ignoring_ascii_case, str_eq};

verus! {

/// Transcription mode enumeration.
#[derive(Debug, Clone, Copy, PartialEq, Eq, Structural)]
pub enum TranscriptionMode {
    /// Continuous real-time transcription.
    RealTime,
    /// On-demand manual transcription sessions.
    Manual,
}

/// The number a mode is stored as.
pub open spec fn mode_number(m: TranscriptionMode) -> u8 {
    match m {
        TranscriptionMode::RealTime => 0,
        TranscriptionMode::Manual => 1,
    }
}

/// The mode a number stands for: real-time unless it is that of manual mode.
pub open spec fn numbered_mode(n: u8) -> TranscriptionMode {
    if n == 1 {
        TranscriptionMode::Manual
    } else {
        TranscriptionMode::RealTime
    }
}

/// The mode a name stands for: real-time unless it is "manual", in whatever
/// case.
pub open spec fn named_mode(name: Seq<char>) -> TranscriptionMode {
    if lowercase_text(name) == "manual"@ {
        TranscriptionMode::Manual
    } else {
        TranscriptionMode::RealTime
    }
}

/// A mode survives being stored as a number.
pub proof fn law_mode_survives_storage(m: TranscriptionMode)
    ensures
        numbered_mode(mode_number(m)) == m,
{
}

impl TranscriptionMode {
    /// Convert to u8 for atomic storage.
    pub fn as_u8(self) -> (r: u8)
        ensures
            r == mode_number(self),
    {
        match self {
            TranscriptionMode::RealTime => 0,
            TranscriptionMode::Manual => 1,
        }
    }

    /// Convert from u8 for atomic retrieval.
    pub fn from_u8(val: u8) -> (r: Self)
        ensures
            r == numbered_mode(val),
    {
        if val == 1 {
            TranscriptionMode::Manual
        } else {
            TranscriptionMode::RealTime
        }
    }
}

impl<'a> From<&'a str> for TranscriptionMode {
    fn from(mode: &'a str) -> (r: Self) {
        if str_eq(to_lowercase_text(mode).as_str(), "manual") {
            TranscriptionMode::Manual
        } else {
            TranscriptionMode::RealTime
        }
    }
}

impl<'a> vstd::std_specs::convert::FromSpecImpl<&'a str> for TranscriptionMode {
    open spec fn obeys_from_spec() -> bool {
        true
    }

    open spec fn from_spec(mode: &'a str) -> TranscriptionMode {
        named_mode(mode@)
    }
}

/// Transcription with session tracking.
///
/// A message that is not final is an interim hypothesis, to be displayed and
/// not committed. A final message with the same session supersedes it.
#[derive(Debug, Clone)]
pub struct TranscriptionMessage {
    pub text: String,
    pub session_id: Option<String>,
    pub is_final: bool,
}

/// Live-audio events sent from the audio pipeline to the streaming worker.
#[derive(Debug, Clone)]
pub enum StreamEvent<S> {
    /// A new utterance started.
    Start { session_id: Option<String> },
    /// A chunk of utterance audio.
    Chunk(Vec<S>),
    /// The utterance ended.
    End,
}

/// What a [`StreamEvent`] holds.
pub enum StreamModel<S> {
    Start { session_id: Option<Seq<char>> },
    Chunk(Seq<S>),
    End,
}

impl<S> View for StreamEvent<S> {
    type V = StreamModel<S>;

    open spec fn view(&self) -> StreamModel<S> {
        match self {
            StreamEvent::Start { session_id } => StreamModel::Start {
                session_id: crate::text::strings::opt_view(*session_id),
            },
            StreamEvent::Chunk(samples) => StreamModel::Chunk(samples@),
            StreamEvent::End => StreamModel::End,
        }
    }
}

/// A name in ASCII stands for manual mode exactly where it is "manual", in
/// whatever case, and for real-time mode otherwise.
pub proof fn law_modes_are_named_in_any_case(name: Seq<char>)
    requires
        all_ascii(name),
    ensures
        named_mode(name) == TranscriptionMode::Manual <==> same_ignoring_ascii_case(
            name,
            "manual"@,
        ),
        named_mode(name) == TranscriptionMode::RealTime <==> !same_ignoring_ascii_case(
            name,
            "manual"@,
        ),
{
    reveal_strlit("manual");
    assert(ascii_lowercase("manual"@) =~= "manual"@);
}

} // verus!
