[package]
name = "voice_relay"
version = "0.1.0"
edition = "2021"
publish = false

[dependencies]
async-trait = "0.1"
chrono = "=0.4.45"
dotenvy = "0.15"
hound = "=3.5.1"
reqwest = { version = "0.12", default-features = false, features = ["json", "rustls-tls"] }
rustls = { version = "0.23", default-features = false, features = ["ring", "std", "logging", "tls12"] }
serde = { version = "1", features = ["derive"] }
serde_json = "1"
songbird = { version = "0.5", default-features = false, features = ["driver", "gateway", "twilight", "rustls", "receive", "tws"] }
tokio = { version = "1", features = ["full"] }
tracing = "0.1"
tracing-subscriber = "0.3"
twilight-gateway = "0.16"
twilight-http = "0.16"
twilight-interactions = "0.16"
twilight-model = "0.16"
whisper-rs = "0.14"
