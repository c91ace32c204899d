//! Nemotron backend: its languages, its chunked encoding, its greedy decoding
//! and its files.

pub mod backend;
pub mod decoder;
pub mod lang;
pub mod model;
