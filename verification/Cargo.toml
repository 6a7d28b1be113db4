[package]
name = "wifi_connect"
version = "0.1.0"
edition = "2021"
publish = false

[dependencies]
actix-web = "=4.18.1"
anyhow = "=1.0.104"
byteorder = "=1.5.0"
clap = { version = "=3.2.25", features = ["derive"] }
glib = "=0.15.12"
libc = "=0.2.191"
macaddr = "=1.0.1"
neli = { version = "=0.6.5", features = ["async"] }
serde = { version = "=1.0.229", features = ["derive"] }
tokio = { version = "=1.54.1", features = ["io-util", "macros", "rt-multi-thread", "sync", "time"] }
