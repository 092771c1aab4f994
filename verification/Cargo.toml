[package]
name = "archive_fts"
version = "0.1.0"
edition = "2021"
publish = false

[dependencies]
chrono = { version = "=0.4.45", default-features = false, features = ["clock", "std"] }
rusqlite = { version = "=0.41.1", features = ["bundled"] }

[dev-dependencies]
tempfile = "=3.27.0"
