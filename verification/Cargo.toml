[package]
name = "cargo-multivers"
version = "0.1.0"
edition = "2021"
publish = false

[dependencies]
anyhow = "1"
bincode = "2"
bzip2 = "*"
cargo_metadata = "*"
clap = { version = "4", features = ["derive"] }
clap-cargo = { version = "*", features = ["cargo_metadata"] }
escargot = "0.5"
flate2 = "1"
humansize = "2"
proc-exit = "2"
target-lexicon = "0.12"
tempfile = "3"
