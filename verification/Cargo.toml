[package]
name = "desktop_stream"
version = "0.1.0"
edition = "2021"
publish = false

[dependencies]
rand = "0.8"
bincode = "1"
serde = { version = "1", features = ["derive"] }
serde_json = "1"
tokio = { version = "1", features = ["rt-multi-thread", "net", "sync", "time", "macros"] }
clap = { version = "4", features = ["derive"] }
tracing = "0.1"
tracing-subscriber = { version = "0.3", features = ["env-filter", "fmt"] }
thiserror = "1"
chrono = { version = "0.4", default-features = false, features = ["clock", "std"] }
