//! The DuckDB engine and the error types of QueryScript.
pub mod ast;
pub mod error;
pub mod parser;
pub mod runtime;
pub mod style;
pub mod text;
pub mod types;
