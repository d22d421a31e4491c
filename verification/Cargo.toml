[package]
name = "sendme_egui"
version = "0.1.0"
edition = "2021"
publish = false

[dependencies]
anyhow = "=1.0.104"
async-channel = "=2.5.0"
chrono = { version = "=0.4.45", default-features = false, features = ["clock"] }
futures-buffered = "=0.2.13"
humansize = "=2.1.3"
iroh = { version = "=1.4.1", default-features = false, features = ["tls-ring"] }
iroh-blobs = { version = "=0.103.1", default-features = false }
iroh-tickets = "=1.0.0"
n0-future = "=0.3.2"
num_cpus = "=1.17.0"
rand = "=0.10.3"
serde = { version = "=1.0.229", features = ["derive"] }
serde_derive = "=1.0.229"
tokio = { version = "=1.54.1", features = ["rt-multi-thread", "macros", "time", "sync", "signal"] }
tracing = "=0.1.44"
tracing-subscriber = "=0.3.23"
walkdir = "=2.5.0"
