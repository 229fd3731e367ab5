[package]
name = "aurrasd"
version = "0.1.0"
edition = "2021"
publish = false

[dependencies]
anyhow = "=1.0.104"
audioadapter-buffers = "=2.0.0"
clap = { version = "=4.6.7", features = ["derive"] }
cpal = "=0.17.3"
crossbeam-channel = "=0.5.17"
ctrlc = "=3.5.2"
interprocess = "=2.4.7"
reqwest = { version = "=0.12.28", default-features = false, features = ["blocking", "rustls-tls"] }
ringbuf = "=0.4.8"
rubato = "=1.0.1"
serde = { version = "=1.0.229", features = ["derive"] }
serde_json = "=1.0.154"
symphonia = { version = "=0.5.5", features = ["all"] }
thiserror = "=2.0.21"
tracing = "=0.1.44"
tracing-subscriber = { version = "=0.3.23", features = ["env-filter"] }
