[package]
name = "rak-basicstation"
version = "0.3.1"
edition = "2021"
publish = false

[dependencies]
anyhow = "=1.0.104"
async-trait = "=0.1.92"
base64 = "=0.22.1"
crc32fast = "=1.5.4"
futures-util = { version = "=0.3.34", features = ["sink"] }
handlebars = "=6.4.4"
hex = "=0.4.3"
humantime-serde = "=1.1.1"
log = "=0.4.35"
reqwest = { version = "=0.12.28", default-features = false, features = ["rustls-tls", "json"] }
rustls = "=0.23.46"
rustls-native-certs = "=0.8.5"
rustls-pki-types = "=1.15.1"
serde = { version = "=1.0.229", features = ["derive"] }
serde_json = "=1.0.154"
tokio = { version = "=1.54.1", features = ["sync", "rt-multi-thread", "macros", "net", "time"] }
tokio-tungstenite = { version = "=0.26.2", features = ["rustls-tls-native-roots"] }
toml = "=0.8.23"
