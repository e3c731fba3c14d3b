[package]
name = "pipelight"
version = "0.1.0"
edition = "2021"
publish = false

[dependencies]
chrono = "0.4"
serde = { version = "1", features = ["derive"] }
serde_json = "1"
log = "0.4"
project-root = "*"
rev_buf_reader = "*"
git2 = "*"
watchexec = "*"
watchexec-events = "*"
watchexec-signals = "*"
tokio = { version = "1", features = ["macros", "rt-multi-thread"] }
