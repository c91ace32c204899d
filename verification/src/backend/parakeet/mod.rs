//! Parakeet TDT backend: its vocabulary, its greedy decoding and its files.

pub mod backend;
pub mod decoder;
pub mod model;
pub mod tokenizer;
