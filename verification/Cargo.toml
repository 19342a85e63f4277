[package]
name = "loikka"
version = "0.1.0"
edition = "2021"
publish = false

[dependencies]
chrono = "=0.4.45"
serde = { version = "=1.0.229", features = ["derive"] }
serde_json = "=1.0.154"
sqlx = { version = "=0.8.6", default-features = false, features = ["sqlite", "runtime-tokio"] }
tokio = { version = "=1.54.1", features = ["sync"] }
thiserror = "=1.0.69"
tauri = { version = "2", default-features = false }
reqwest = { version = "0.12", default-features = false, features = ["json"] }
dirs = "*"
