[package]
name = "blossom"
version = "0.1.0"
edition = "2021"
publish = false

[dependencies]
anyhow = "1"
base64 = "0.22"
chromadb = "*"
clap = { version = "4", features = ["derive"] }
dotenvy = "0.15"
futures = "0.3"
image = { version = "0.24", default-features = false, features = ["png", "jpeg"] }
names = { version = "0.14", default-features = false }
ollama-rs = { version = "0.1", features = ["stream"] }
quick-xml = "*"
sqlx = { version = "0.7", features = ["runtime-tokio", "sqlite", "uuid", "time"] }
thiserror = "1"
time = "0.3"
tokio = { version = "1", features = ["macros", "rt-multi-thread", "io-std", "io-util"] }
tokio-stream = "0.1"
tracing = "0.1"
tracing-appender = "0.2"
tracing-subscriber = { version = "0.3", features = ["env-filter"] }
url = "2"
uuid = { version = "1", features = ["v4"] }
