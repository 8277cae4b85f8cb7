[package]
name = "alice"
version = "0.1.0"
edition = "2021"
publish = false

[dependencies]
rusqlite = { version = "=0.41.1", features = ["bundled"] }
serde = { version = "=1.0.229", features = ["derive"] }
serde_json = "=1.0.154"
clap = { version = "=4.6.7", features = ["derive"] }
eyre = "=0.6.14"
tracing = "=0.1.44"
tracing-subscriber = "=0.3.23"
tokio = { version = "=1.54.1", features = ["rt-multi-thread", "macros", "time"] }
bob-runtime = "=0.3.2"
config = "=0.15.27"
chrono = { version = "0.4", default-features = false, features = ["clock"] }
