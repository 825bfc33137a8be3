[package]
name = "tg_gpt_bot"
version = "0.1.0"
edition = "2021"
publish = false

[dependencies]
anyhow = "=1.0.104"
base64 = "=0.22.1"
chrono = { version = "=0.4.45", features = ["serde"] }
color-eyre = "=0.6.5"
dashmap = "=6.2.1"
dotenvy = "=0.15.7"
dyn-fmt = "=0.4.3"
lambda_http = "=1.3.2"
rand = "=0.8.8"
reqwest = { version = "=0.12.28", features = ["json", "multipart"] }
reqwest-middleware = { version = "=0.4.2", features = ["json"] }
reqwest-retry = "=0.7.0"
serde = { version = "1", features = ["derive", "rc"] }
serde_json = "1"
thiserror = "=2.0.21"
tokio = { version = "1", features = ["macros", "rt-multi-thread", "time", "sync"] }
tracing = "0.1"
tracing-subscriber = { version = "0.3", features = ["json"] }
