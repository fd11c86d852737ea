[package]
name = "assistant_core"
version = "0.1.0"
edition = "2021"
publish = false

[dependencies]
chrono = { version = "0.4", default-features = false, features = ["std", "clock"] }
serde_json = "1"
thiserror = "2"
tracing = "0.1"
tokio = { version = "1", features = ["sync", "rt", "macros", "time"] }
rusqlite = { version = "0.37", features = ["bundled"] }
