[package]
name = "rgb_node"
version = "0.1.0"
edition = "2021"
publish = false

[dependencies]
amplify = "=3.13.0"
bitcoin = "=0.28.1"
internet2 = { version = "=0.8.4", default-features = false }
lnpbp = "=0.8.0"
microservices = { version = "=0.8.10", default-features = false }
rgb-std = "=0.8.0"
serde = { version = "=1.0.229", features = ["derive"] }
serde_json = "=1.0.154"
strict_encoding = "=0.8.2"
tokio = { version = "=1.54.1", features = ["rt"] }
zmq = "=0.10.0"
