[package]
name = "progress_tracker"
version = "0.1.0"
edition = "2021"
publish = false

[dependencies]
bon = "3"
clap = { version = "4", features = ["derive"] }
derive_more = { version = "2", features = ["display", "error", "from"] }
dotenvy = "0.15"
owo-colors = "4"
tracing = "0.1"
tracing-appender = "0.2"
tracing-error = "0.2"
tracing-subscriber = { version = "0.3", features = ["env-filter"] }
