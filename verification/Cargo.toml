[package]
name = "flowstation"
version = "0.1.0"
edition = "2021"
publish = false

[dependencies]
crossbeam-channel = "0.5"
num = "0.4"
rustfft = "6"
serde = { version = "1", features = ["derive"] }
serde_json = "1"
soapysdr = "0.4"
toml = "0.8"
tracing = "0.1"
tungstenite = "0.24"
