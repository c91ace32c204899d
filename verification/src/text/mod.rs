//! Text: character classes, operations on strings, decimal numbers and paths.

pub mod chars;
pub mod numbers;
pub mod paths;
pub mod strings;
