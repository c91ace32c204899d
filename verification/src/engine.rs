//! The push-to-talk engine: one session at a time, and its final transcript.

use vstd::prelude::*;

use crate::backend::BackendType;
use crate::config::SpeechConfig;
use crate::real_time_transcriber::TranscriptionMessage;
use crate::text::strings::{opt_view, str_eq};

verus! {

/// Final transcript of a manual session.
#[derive(Debug, Clone, PartialEq, Eq)]
pub struct Transcript {
    /// Final transcript text.
    pub text: String,
    /// Session that produced this transcript.
    pub session_id: Option<String>,
    /// Model name from the engine configuration.
    pub model: String,
    /// Backend used by the engine configuration.
    pub backend: BackendType,
}

impl Transcript {
    /// The transcript that a message holds.
    pub fn from_message<F>(message: TranscriptionMessage, config: &SpeechConfig<F>) -> (r: Self)
        ensures
            r.text == message.text,
            r.session_id == message.session_id,
            r.model@ == config.general_config.model@,
            r.backend == config.backend_config.backend,
    {
        Transcript {
            text: message.text,
            session_id: message.session_id,
            model: config.general_config.model.clone(),
            backend: config.backend_config.backend,
        }
    }
}

/// How long, in milliseconds, a final transcript is waited for by default.
pub const DEFAULT_TRANSCRIPT_TIMEOUT_MILLIS: u64 = 60_000;

/// High-level push-to-talk speech engine.
#[derive(Debug)]
pub struct SpeechEngine<F> {
    config: SpeechConfig<F>,
    active_session_id: Option<String>,
    transcript_timeout_millis: u64,
}

/// Whether a message is the one waited for: final, and of the session that was
/// stopped. With no session known, any final message is.
pub open spec fn is_awaited(
    expected: Option<Seq<char>>,
    session_id: Option<Seq<char>>,
    is_final: bool,
) -> bool {
    is_final && (expected is None || session_id == expected)
}

fn same_session(a: &Option<String>, b: &Option<String>) -> (r: bool)
    ensures
        r == (opt_view(*a) == opt_view(*b)),
{
    match (a, b) {
        (Some(x), Some(y)) => str_eq(x.as_str(), y.as_str()),
        (None, None) => true,
        _ => false,
    }
}

impl<F> SpeechEngine<F> {
    /// The engine's configuration.
    pub closed spec fn configuration(self) -> SpeechConfig<F> {
        self.config
    }

    /// The session that is recording, as far as the engine knows.
    pub closed spec fn active(self) -> Option<Seq<char>> {
        opt_view(self.active_session_id)
    }

    /// How long a final transcript is waited for, in milliseconds.
    pub closed spec fn timeout(self) -> u64 {
        self.transcript_timeout_millis
    }

    /// An engine in manual mode, whatever mode was configured.
    pub fn new(config: SpeechConfig<F>) -> (r: Self)
        ensures
            r.configuration().general_config.transcription_mode@ == "manual"@,
            r.configuration() == (SpeechConfig {
                general_config: r.configuration().general_config,
                ..config
            }),
            r.configuration().general_config.model == config.general_config.model,
            r.configuration().general_config.language == config.general_config.language,
            r.active() is None,
            r.timeout() == 60_000,
    {
        let mut config = config;
        config.general_config.transcription_mode = "manual".to_owned();
        SpeechEngine {
            config,
            active_session_id: None,
            transcript_timeout_millis: DEFAULT_TRANSCRIPT_TIMEOUT_MILLIS,
        }
    }

    /// The engine's configuration.
    pub fn config(&self) -> (r: &SpeechConfig<F>)
        ensures
            *r == self.configuration(),
    {
        &self.config
    }

    /// How long a final transcript is waited for, in milliseconds.
    pub fn transcript_timeout(&self) -> (r: u64)
        ensures
            r == self.timeout(),
    {
        self.transcript_timeout_millis
    }

    /// Sets how long a final transcript is waited for, in milliseconds.
    pub fn set_transcript_timeout(&mut self, millis: u64)
        ensures
            final(self).configuration() == old(self).configuration(),
            final(self).active() == old(self).active(),
            final(self).timeout() == millis,
    {
        self.transcript_timeout_millis = millis;
    }

    /// A session was started.
    pub fn start_session(&mut self, session_id: &str)
        ensures
            final(self).configuration() == old(self).configuration(),
            final(self).active() == Some(session_id@),
            final(self).timeout() == old(self).timeout(),
    {
        self.active_session_id = Some(session_id.to_owned());
    }

    /// The session is to be stopped. The result is its id, by which its
    /// transcript is known.
    pub fn stop_session(&mut self) -> (r: Option<String>)
        ensures
            opt_view(r) == old(self).active(),
            final(self).configuration() == old(self).configuration(),
            final(self).active() is None,
            final(self).timeout() == old(self).timeout(),
    {
        self.active_session_id.take()
    }

    /// The session is to be cancelled.
    pub fn cancel_session(&mut self)
        ensures
            final(self).configuration() == old(self).configuration(),
            final(self).active() is None,
            final(self).timeout() == old(self).timeout(),
    {
        self.active_session_id = None;
    }

    /// The transcript that a message brings, where it is the one waited for.
    pub fn accept_message(&self, expected: &Option<String>, message: TranscriptionMessage) -> (r:
        Option<Transcript>)
        ensures
            match r {
                Some(t) => {
                    &&& is_awaited(
                        opt_view(*expected),
                        opt_view(message.session_id),
                        message.is_final,
                    )
                    &&& t.text == message.text
                    &&& t.session_id == message.session_id
                    &&& t.model@ == self.configuration().general_config.model@
                    &&& t.backend == self.configuration().backend_config.backend
                },
                None => !is_awaited(
                    opt_view(*expected),
                    opt_view(message.session_id),
                    message.is_final,
                ),
            },
    {
        if message.is_final && (expected.is_none() || same_session(
            &message.session_id,
            expected,
        )) {
            Some(Transcript::from_message(message, &self.config))
        } else {
            None
        }
    }
}

/// The text of the error that the transcript channel closed.
pub fn channel_closed_text(reason: &str) -> (r: String)
    ensures
        r@ == "Transcript channel closed before final transcript: "@ + reason@,
{
    crate::text::strings::concat("Transcript channel closed before final transcript: ", reason)
}

/// The engine takes a message for the transcript exactly where it is final and
/// of the session that was stopped; an interim message and one of another
/// session never are, and any final one is where no session was known.
pub proof fn law_only_the_final_message_is_taken<F>(
    engine: &SpeechEngine<F>,
    expected: &Option<String>,
    message: TranscriptionMessage,
    r: Option<Transcript>,
)
    requires
        call_ensures(SpeechEngine::<F>::accept_message, (engine, expected, message), r),
    ensures
        r is Some <==> message.is_final && (*expected matches Some(id) ==> (
        message.session_id matches Some(of) && of@ == id@)),
        r matches Some(t) ==> t.text == message.text && t.session_id == message.session_id,
{
}

} // verus!
