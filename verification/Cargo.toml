[package]
name = "rustorium"
version = "0.1.0"
edition = "2021"
publish = false

[dependencies]
petgraph = "=0.6.5"
blake3 = "=1.8.7"
hex = "=0.4.3"
sha2 = "=0.10.9"
rand = "=0.8.8"
serde = { version = "=1.0.229", features = ["derive"] }
serde_json = "=1.0.154"
bincode = "=1.3.3"
tokio = { version = "=1.54.1", features = ["full"] }
anyhow = "=1.0.104"
thiserror = "=1.0.69"
clap = { version = "=4.6.7", features = ["derive"] }
async-trait = "=0.1.92"
chrono = "=0.4.45"
uuid = { version = "=1.29.1", features = ["v4"] }
tracing = "=0.1.44"
tracing-subscriber = { version = "=0.3.23", features = ["env-filter"] }
ctrlc = "=3.5.2"
redb = "=4.4.0"
futures = "0.3"
libp2p = { version = "0.53", features = ["tcp", "noise", "yamux", "floodsub", "mdns", "tokio", "macros"] }
quinn = "0.10"
rustls = { version = "0.21", features = ["dangerous_configuration"] }
rcgen = "0.11"
