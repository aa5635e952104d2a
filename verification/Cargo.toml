[package]
name = "pastebin"
version = "0.1.0"
edition = "2021"
publish = false

[dependencies]
uuid = { version = "=1.29.0", features = ["serde"] }
serde = { version = "=1.0.229", features = ["derive"] }
serde_json = "=1.0.154"
chrono = "=0.4.45"
dotenv = "=0.15.0"
once_cell = "=1.21.4"
anyhow = "=1.0.104"
actix-web = "=4.18.1"
actix-cors = "=0.7.2"
reqwest = { version = "=0.12.28", default-features = false }
tokio = { version = "=1.54.1", features = ["rt-multi-thread", "macros", "time", "signal"] }
redis = "=1.8.1"
scylla = "=1.9.0"
futures = "=0.3.34"
async-trait = "=0.1.92"
