[package]
name = "blink1_mqtt"
version = "0.1.0"
edition = "2021"
publish = false

[dependencies]
serde_json = "1"
blinkrs = "*"
paho-mqtt = "*"
clap = { version = "4", features = ["derive"] }
url = "2"
