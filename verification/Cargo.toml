[package]
name = "playfusion"
version = "0.1.0"
edition = "2021"
publish = false

[dependencies]
chrono = "0.4"
tokio = { version = "1", features = ["sync", "rt", "rt-multi-thread", "macros", "time"] }
async-trait = "0.1"
thiserror = "2"
anyhow = "1"
tracing = "0.1"
serde = { version = "1", features = ["derive"] }
rustfft = "6"
