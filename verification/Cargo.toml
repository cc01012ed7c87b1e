[package]
name = "mpc"
version = "0.1.0"
edition = "2021"
publish = false

[dependencies]
anyhow = "1"
fnv = "1.0"
log = "0.4"
signal-hook = "0.3"
tokio = { version = "1", features = ["rt", "rt-multi-thread", "macros", "sync"] }
