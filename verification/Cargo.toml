[package]
name = "aidoc"
version = "0.1.0"
edition = "2021"
publish = false

[dependencies]
indexmap = "2"
sha2 = "0.10"
hex = "0.4"
chrono = "0.4"
serde = { version = "1", features = ["derive"] }
serde_json = "1"
rusqlite = { version = "0.31", features = ["bundled"] }
zip = { version = "*", default-features = false, features = ["deflate"] }
walkdir = "2"
tempfile = "3"
clap = { version = "4", features = ["derive"] }
anyhow = "1"
