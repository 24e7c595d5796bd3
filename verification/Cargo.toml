[package]
name = "json_generator"
version = "0.2.0"
edition = "2021"
publish = false

[dependencies]
serde_json = { version = "=1.0.154", features = ["preserve_order"] }
rand = "=0.7.3"
chrono = "=0.4.45"
uuid = { version = "=0.8.2", features = ["v4"] }
clap = "=3.2.25"
log = "=0.4.34"
simplelog = "=0.12.2"
