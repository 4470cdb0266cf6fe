//! Mirage: a tiny converter from a small subset of markdown to HTML.
//!
//! The library holds the line converter (a streaming state machine that
//! turns each input line into a closed HTML block), the derivation of the
//! output file name, and the banner texts shown by the command-line tool.

pub mod banner;
pub mod converter;
pub mod file_name;
pub mod markup;
