[package]
name = "ruos"
version = "0.1.0"
edition = "2021"
publish = false

[dependencies]
regex = "1"
sha2 = "0.10"
hex = "0.4"
chrono = "0.4"
serde = { version = "1", features = ["derive"] }
serde_json = "1"
anyhow = "1"
clap = { version = "4", features = ["derive"] }
dirs = "5"
tokio = { version = "1", features = ["macros", "rt-multi-thread", "process", "time", "sync"] }
reqwest = { version = "0.12", default-features = false, features = ["json"] }
rusqlite = "0.31"
cpal = "0.15"
hound = "3"
