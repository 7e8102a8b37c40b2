//! The DuckDB engine.
pub mod engine;
pub mod laws;
pub mod pool;
pub mod reader;
pub mod scan;
