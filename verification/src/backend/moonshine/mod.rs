//! Moonshine backend: its files, the names of its networks' inputs and
//! outputs, its vocabulary and its greedy decoding.

pub mod backend;
pub mod model;
pub mod names;
pub mod tokenizer;
