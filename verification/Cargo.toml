[package]
name = "sqlx_tls"
version = "0.1.0"
edition = "2021"
publish = false

[dependencies]
rustls = "*"
rustls-pemfile = "*"
native-tls = "*"
webpki-roots = "*"
futures-util = "*"
bytes = "*"
cargo_metadata = "*"
serde_json = "*"
anyhow = "*"
