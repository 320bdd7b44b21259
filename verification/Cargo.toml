[package]
name = "kubemerge"
version = "0.2.0"
edition = "2021"
publish = false

[dependencies]
chrono = "=0.4.45"
clap = { version = "=4.6.7", features = ["string"] }
serde = { version = "=1.0.229", features = ["derive"] }
serde_yml = "=0.0.13"
tracing = "=0.1.44"
