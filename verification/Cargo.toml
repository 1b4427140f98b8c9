[package]
name = "redisearch_sql"
version = "0.1.0"
edition = "2021"
publish = false

[dependencies]
ahash = "0.8"
chrono = { version = "0.4", default-features = false, features = ["alloc", "std"] }
libc = "0.2"
sqlparser = "0.54"
thiserror = "2"
xxhash-rust = { version = "0.8", features = ["xxh3"] }
