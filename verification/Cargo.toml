[package]
name = "sonicbrew"
version = "0.1.0"
edition = "2021"
publish = false

[dependencies]
audio-core-bsd = "=0.1.1"
audio-graph-bsd = { version = "=0.4.1", features = ["topology"] }
audio-codec-bsd = "=0.1.1"
rtrb = "=0.3.6"
serde = { version = "1", features = ["derive"] }
serde_json = "1"
thiserror = "2"
tracing = "0.1"
tokio = { version = "1", features = ["rt", "rt-multi-thread", "macros", "net", "sync", "time", "io-util"] }
tokio-tungstenite = "0.24"
futures-util = "0.3"
axum = "0.7"

[dev-dependencies]
audio-dsp-bsd = "=0.3.1"
