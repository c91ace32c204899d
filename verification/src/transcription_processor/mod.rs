//! Turning recorded segments into transcripts: splitting long recordings,
//! choosing prompts, and the decisions of the transcription workers.

pub mod chunks;
pub mod pauses;
pub mod processor;
pub mod workers;
