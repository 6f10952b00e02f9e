[package]
name = "consensus_filter"
version = "0.1.0"
edition = "2021"
publish = false

[dependencies]
bincode = "1.3"
bytes = "1"
futures = "0.3"
tokio = { version = "1", features = ["macros", "rt", "sync", "time"] }
