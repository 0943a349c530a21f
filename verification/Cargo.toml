[package]
name = "weathr"
version = "0.1.0"
edition = "2021"
publish = false

[dependencies]
serde_json = { version = "=1.0.151", features = ["arbitrary_precision"] }
reqwest = { version = "=0.12.28", default-features = false }
tokio = { version = "=1.53.2", features = ["rt-multi-thread", "macros"] }
dotenv = "=0.15.0"
