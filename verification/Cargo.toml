[package]
name = "swiss_transport_mcp"
version = "0.1.0"
edition = "2021"
publish = false

[dependencies]
anyhow = "=1.0.104"
chrono = { version = "=0.4.45", features = ["serde"] }
chrono-tz = "=0.10.4"
prost = "=0.14.4"
quick-xml = "0.39"
regex = "=1.13.1"
reqwest = { version = "0.12", default-features = false, features = ["rustls-tls", "gzip", "brotli", "deflate"] }
serde = { version = "1", features = ["derive"] }
serde_json = "=1.0.154"
strsim = "=0.11.1"
structopt = "0.3"
tokio = { version = "1", features = ["full"] }
uuid = { version = "=1.29.0", features = ["v4"] }
