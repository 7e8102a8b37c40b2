//! The runtime's side of the library: parameters of queries and the DuckDB engine.
pub mod duckdb;
pub mod error;
pub mod normalize;
pub mod sql;
