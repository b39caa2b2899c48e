[package]
name = "fdb_queue"
version = "0.1.0"
edition = "2021"
publish = false

[dependencies]
base64 = "0.22"
foundationdb = { version = "*", features = ["embedded-fdb-include", "fdb-7_1"] }
reqwest = { version = "0.12", default-features = false, features = ["json"] }
serde = { version = "1", features = ["derive"] }
serde_json = "1"
serde_with = "3"
thiserror = "1"
tracing = "0.1"
