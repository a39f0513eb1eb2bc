[package]
name = "rag_loader"
version = "0.1.0"
edition = "2021"
publish = false

[dependencies]
anyhow = "1"
serde = { version = "1", features = ["derive"] }
serde_yaml = "0.9"
tokio = { version = "1", features = ["fs", "io-util", "macros", "process", "rt-multi-thread"] }
which = "*"
