[package]
name = "queryscript"
version = "0.1.0"
edition = "2021"
publish = false

[dependencies]
arrow = { version = "=26.0.0", default-features = false, features = ["ffi", "prettyprint"] }
async-trait = "=0.1.92"
chrono = { version = "=0.4.31", default-features = false }
colored = "=2.2.0"
cxx = "=1.0.205"
duckdb = { version = "=0.6.0", default-features = false }
hashlink = "=0.8.4"
lazy_static = "=1.5.1"
snafu = "=0.7.5"
sqlparser = "=0.32.0"
tokio = { version = "=1.54.1", default-features = false, features = ["rt-multi-thread"] }
