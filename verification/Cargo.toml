[package]
name = "riwaq_host"
version = "0.1.0"
edition = "2021"
publish = false

[dependencies]
serde = { version = "=1.0.229", features = ["derive"] }
serde_json = "=1.0.154"
async-graphql = { version = "=5.0.10", features = ["dynamic-schema"] }
async-graphql-poem = "=5.0.10"
poem = "=1.3.59"
tokio = { version = "=1.54.1", features = ["full"] }
wasmer = { version = "=6.1.0", features = ["singlepass"] }
chrono = { version = "=0.4.45", default-features = false, features = ["std"] }
clap = { version = "=4.6.7", features = ["derive"] }
dotenv = "=0.15.0"
notify-debouncer-full = { version = "=0.2.0", default-features = false }
toml = "=0.7.8"
tracing-subscriber = { version = "=0.3.23", features = ["env-filter"] }
