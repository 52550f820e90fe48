[package]
name = "blaming_diff_filter"
version = "0.1.0"
edition = "2021"
publish = false

[dependencies]
clap = { version = "4", features = ["derive"] }
strip-ansi-escapes = "0.2"
