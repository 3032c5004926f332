[package]
name = "mqtt_toolkit"
version = "0.1.0"
edition = "2021"
publish = false

[dependencies]
mqttrs = "0.4"
lexical-sort = "0.3"
bytes = "1"
tokio = { version = "1", features = ["full"] }
tokio-util = { version = "0.7", features = ["codec"] }
futures = "0.3"
clap = { version = "4", features = ["cargo"] }
simplelog = "0.12"
log = "0.4"
colored = "2"
signal-hook = "0.3"
lazy_static = "1"
