//! Hooks by which an application gives audible or visible feedback.

use vstd::prelude::*;

verus! {

/// What feedback is given of.
#[derive(Debug, Clone, Copy, PartialEq, Eq, Structural, Hash)]
pub enum FeedbackEvent {
    RecordStart,
    RecordStop,
    SessionStart,
    SessionComplete,
    SessionCancel,
}

/// An application's feedback hook.
pub trait FeedbackSink: Send + Sync {
    /// Gives feedback of `event`.
    fn play(&self, event: FeedbackEvent);
}

} // verus!
