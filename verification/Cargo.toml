[package]
name = "zync"
version = "0.1.0"
edition = "2021"
publish = false

[dependencies]
anyhow = "=1.0.104"
ashpd = "0.11"
chrono = "=0.4.45"
dirs = "=7.0.0"
gstreamer = "=0.23.7"
gstreamer-app = "=0.23.5"
image = { version = "=0.25.10", default-features = false }
rumqttc = "=0.25.1"
serde = { version = "=1.0.229", features = ["derive"] }
serde_json = "=1.0.154"
serde_yaml = "=0.9.34"
tokio = { version = "=1.54.1", features = ["rt-multi-thread"] }
xcap = "=0.9.8"
