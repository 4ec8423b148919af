//! A scanner for a small C-like language: it turns the bytes of a source file
//! into located tokens, and it collects command-line options for a driver.

pub mod bytes;
pub mod position;
pub mod text;
pub mod token;
pub mod error;
pub mod number;
pub mod grammar;
pub mod scan;
pub mod lex;
pub mod laws;
pub mod cmdline;
pub mod options;
