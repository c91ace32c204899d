[package]
name = "speechcore"
version = "0.1.0"
edition = "2021"
publish = false

[dependencies]
anyhow = "1"
chrono = "=0.4.45"
ct2rs = "0.9"
futures-util = "0.3"
hound = "3"
ndarray = "0.16"
num_cpus = "=1.17.0"
ort = { version = "=2.0.0-rc.10", default-features = false, features = ["std", "ndarray", "load-dynamic"] }
parking_lot = "0.12"
portaudio = "0.7"
reqwest = { version = "0.12", default-features = false, features = ["stream", "rustls-tls"] }
rustfft = "6"
serde = { version = "1", features = ["derive"] }
serde_json = "1"
tokenizers = { version = "=0.21.4", default-features = false, features = ["fancy-regex"] }
tokio = { version = "1", features = ["full"] }
tracing = "0.1"
whisper-rs = "0.15"
