[package]
name = "clipto"
version = "0.1.0"
edition = "2021"
publish = false

[dependencies]
anyhow = "=1.0.104"
chacha20poly1305 = "=0.10.1"
clap = { version = "=4.6.7", features = ["derive"] }
ctrlc = "=3.5.2"
inotify = "=0.10.2"
rand = "=0.8.8"
zeroize = "=1.9.1"

[dev-dependencies]
bincode = "=1.3.3"
serde = "=1.0.229"
