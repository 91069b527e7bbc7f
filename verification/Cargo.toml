[package]
name = "rpc-proxy"
version = "0.1.0"
edition = "2021"
publish = false

[dependencies]
async-trait = "=0.1.92"
axum = "=0.6.20"
ethers = { version = "=2.0.14", default-features = false }
hex = "=0.4.3"
hyper = { version = "=0.14.32", features = ["full"] }
hyper-tls = "=0.5.0"
jsonrpc = "=0.21.0"
rand_core = { version = "=0.6.4", features = ["getrandom"] }
serde = { version = "=1.0.229", features = ["derive"] }
serde_json = "=1.0.154"
tokio = { version = "=1.54.1", features = ["time"] }
tracing = "=0.1.44"
uuid = { version = "=1.29.0", features = ["v4"] }
warp = "=0.3.7"
