[package]
name = "file_watcher"
version = "0.1.0"
edition = "2021"
publish = false

[dependencies]
anyhow = "1"
clap = { version = "4", features = ["derive"] }
globset = "0.4"
notify = "6"
shell-words = "1"
tokio = { version = "1", features = ["macros", "process", "rt-multi-thread"] }
