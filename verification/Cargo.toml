[package]
name = "scalar"
version = "0.1.0"
edition = "2021"
publish = false

[dependencies]
hex = "=0.4.3"
ethers-core = { version = "=2.0.14", default-features = false }
itertools = "=0.10.5"
serde = { version = "=1.0.229", features = ["derive"] }
serde_json = "=1.0.154"
uuid = { version = "=1.29.0", features = ["v4"] }
clap = { version = "4", features = ["derive"] }
jsonrpsee = { version = "0.20", default-features = false, features = ["server"] }

[dev-dependencies]
tonic = "=0.10.2"
