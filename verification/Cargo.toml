[package]
name = "harvest"
version = "0.1.0"
edition = "2021"
publish = false

[dependencies]
cargo_metadata = "*"
clap = { version = "4", features = ["derive"] }
log = "0.4"
proc-macro2 = { version = "1", features = ["span-locations"] }
regex = "1"
serde = { version = "1", features = ["derive"] }
serde_json = "1"
sha2 = "0.10"
syn = { version = "2", features = ["full", "visit", "extra-traits"] }
tempfile = "3"
thiserror = "2"
toml = "0.8"
tracing = "0.1"
walkdir = "2"
