[package]
name = "metrics_agg"
version = "0.1.0"
edition = "2021"
publish = false

[dependencies]
json = "0.12"
tokio = { version = "1", features = ["rt", "rt-multi-thread", "sync", "time", "macros"] }
zeromq = "0.4"
reqwest = { version = "0.12", default-features = false }
clap = { version = "3", features = ["derive"] }
tui = "0.19"
crossterm = "0.25"
