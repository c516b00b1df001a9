[package]
name = "netholdem"
version = "0.1.0"
edition = "2021"
publish = false

[dependencies]
x25519-dalek = "=3.0.0"
orion = "=0.18.1"
rand = "=0.10.3"
num_cpus = "=1.17.0"
serde = { version = "=1.0.229", features = ["derive"] }
bincode = "=1.3.3"
tokio = { version = "=1.43.4", features = ["full"] }
warp = { version = "=0.4.3", features = ["server", "websocket"] }
futures = "=0.3.34"
log = "=0.4.35"
flexi_logger = "=0.31.10"
config = { version = "=0.15.27", default-features = false, features = ["toml"] }
ctrlc = "=3.5.2"
anyhow = "=1.0.104"
tokio-util = { version = "=0.7.17", features = ["codec"] }
serde_json = "=1.0.154"
docopt = "=1.1.1"
