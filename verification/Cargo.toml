[package]
name = "dns_server"
version = "0.1.0"
edition = "2021"
publish = false

[dependencies]
anyhow = "=1.0.104"
async-trait = "=0.1.92"
clap = { version = "=4.6.7", features = ["derive"] }
hickory-client = { version = "=0.25.2", features = ["https-ring"] }
hickory-resolver = { version = "=0.25.2", features = ["tls-ring", "https-ring", "webpki-roots"] }
hickory-server = { version = "=0.25.2", default-features = false, features = ["resolver", "tls-ring", "https-ring", "webpki-roots"] }
ipnet = "=2.12.2"
regex = "=1.13.1"
rustls = { version = "=0.23.46", default-features = false, features = ["ring", "std"] }
tokio = { version = "=1.54.1", features = ["full"] }
tokio-graceful = "=0.2.2"
tracing = "=0.1.44"
tracing-subscriber = { version = "=0.3.23", features = ["env-filter"] }
