[package]
name = "sparkplug-mqtt"
version = "0.5.0"
edition = "2021"
publish = false

[dependencies]
prost = "0.13"
rand = "*"
rumqttc = "*"
rustls = "*"
rustls-native-certs = "0.8"
thiserror = "*"
tokio = { version = "1", features = ["rt-multi-thread", "macros", "sync", "time"] }
tracing = "0.1"
