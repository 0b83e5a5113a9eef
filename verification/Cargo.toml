[package]
name = "eventity"
version = "0.1.0"
edition = "2021"
publish = false

[dependencies]
itertools = "=0.15.0"
serde = { version = "=1.0.229", features = ["derive"] }
serde_json = "=1.0.151"
rmp-serde = "=1.3.1"
redis = "=1.7.1"
rayon = "=1.12.0"
clap = { version = "=4.6.7", features = ["derive"] }
