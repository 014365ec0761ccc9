//! Filters a word list down to the words that can be written with a given
//! set of letters.
//!
//! The crate is split by concern:
//!
//! * [`filter`] builds the set of allowed letters and decides whether a single
//!   word can be written with them;
//! * [`lines`] says what the lines of a text are, and splits a text into them;
//! * [`dictionary`] turns what a file or a request gave into a list of words,
//!   and keeps the words that match;
//! * [`config`] holds the rules that a command line has to keep;
//! * [`cli`] reads a command line;
//! * [`report`] lays out what is printed.
//!
//! The library reads no file and opens no connection: the caller does, and
//! hands over what came back.

pub mod cli;
pub mod config;
pub mod dictionary;
pub mod filter;
pub mod lines;
pub mod report;
