[package]
name = "encoder"
version = "0.1.0"
edition = "2021"
publish = false

[dependencies]
chrono = { version = "=0.4.45", default-features = false, features = ["clock", "std"] }
chzzk = "=0.3.3"
dotenv = "=0.15.0"
reqwest = { version = "=0.12.28", default-features = false, features = ["json"] }
serde_json = "=1.0.154"
tap = "=1.0.1"
tokio = { version = "=1.54.1", features = ["fs", "macros", "rt-multi-thread", "signal", "time"] }
