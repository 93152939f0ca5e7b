[package]
name = "tphone"
version = "2.0.0"
edition = "2021"
publish = false

[dependencies]
aead = "=0.5.2"
aes-gcm = "=0.10.3"
anyhow = "=1.0.104"
argon2 = "=0.5.3"
audiopus = "0.2"
chacha20poly1305 = "=0.10.1"
cpal = "0.15"
crossterm = "=0.28.1"
futures = "=0.3.34"
hkdf = "=0.12.4"
qrcode = { version = "=0.14.1", default-features = false }
rand = "=0.8.8"
rustls = { version = "0.23", default-features = false, features = ["ring", "std"] }
safelog = "*"
serde = { version = "=1.0.229", features = ["derive"] }
sha2 = "=0.10.9"
thiserror = "=1.0.69"
tokio = { version = "=1.54.1", features = ["rt-multi-thread", "macros", "sync", "time"] }
toml = "=0.8.23"
tracing = "=0.1.44"
tracing-subscriber = { version = "=0.3.23", features = ["env-filter"] }
zeroize = { version = "=1.9.1", features = ["derive"] }
