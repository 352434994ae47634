[package]
name = "rings_node"
version = "0.1.0"
edition = "2021"
publish = false

[dependencies]
web3 = { version = "=0.19.0", default-features = false, features = ["signing"] }
webrtc = "=0.21.0"
tokio = { version = "=1.53.2", features = ["rt-multi-thread", "macros", "signal", "sync", "time"] }
futures = "=0.3.34"
axum = "=0.8.9"
http = "=1.5.0"
tower-http = { version = "=0.7.1", features = ["cors"] }
jsonrpc-core = "=18.0.0"
clap = { version = "=4.6.7", features = ["derive", "env"] }
daemonize = "=0.5.0"
dotenv = "=0.15.0"
libc = "=0.2.190"
redis = { version = "=1.7.1", features = ["aio", "tokio-comp"] }
url = "=2.5.8"
serde = { version = "=1.0.229", features = ["derive"] }
serde_json = "=1.0.151"
async-trait = "=0.1.92"
anyhow = "=1.0.104"
thiserror = "=1.0.69"
bytes = "=1.12.1"
