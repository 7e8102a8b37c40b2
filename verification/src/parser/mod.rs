//! The parser's side of the library: its errors.
pub mod error;
pub mod laws;
