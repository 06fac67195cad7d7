[package]
name = "kdownloader"
version = "0.1.0"
edition = "2021"
publish = false

[dependencies]
anyhow = "1"
bon = "*"
clap = { version = "4", features = ["derive"] }
quick-xml = { version = "*", features = ["serialize"] }
reqwest = "*"
serde = { version = "1", features = ["derive"] }
sha2 = "*"
thiserror = "*"
tokio = { version = "1", features = ["rt-multi-thread", "macros", "fs", "sync"] }
tokio-util = "*"
