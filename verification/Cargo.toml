[package]
name = "media_pipeline"
version = "0.1.0"
edition = "2021"
publish = false

[dependencies]
chrono = "*"
sha2 = "*"
serde = { version = "*", features = ["derive"] }
serde_json = "*"
dirs = "*"
gethostname = "*"
sysinfo = "*"
