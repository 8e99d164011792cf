[package]
name = "sqlite_reader"
version = "0.1.0"
edition = "2021"
publish = false

[dependencies]
anyhow = "1"
thiserror = "1"
rusqlite = { version = "*", features = ["bundled", "serialize"] }
