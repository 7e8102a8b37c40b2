//! The type system's side of the library: its errors, and relations of Arrow data.
pub mod relation;
pub mod error;
