[package]
name = "base_station"
version = "0.1.0"
edition = "2021"
publish = false

[dependencies]
ctrlc = "=3.5.2"
rppal = "=0.22.1"
tokio = { version = "=1.53.2", features = ["sync"] }
