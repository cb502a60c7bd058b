[package]
name = "harness_infra"
version = "0.1.0"
edition = "2021"
publish = false

[dependencies]
chrono = "0.4"
rusqlite = { version = "*", features = ["bundled"] }
serde_json = "1"
thiserror = "1"
sha2 = "0.10"
