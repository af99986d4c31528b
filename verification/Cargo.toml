[package]
name = "kittenx"
version = "0.2.0"
edition = "2021"
publish = false

[dependencies]
anyhow = "=1.0.104"
clap = { version = "=4.5.61", features = ["derive"] }
espeak-rs = "=0.2.0"
ndarray = "=0.16.1"
ndarray-npy = "=0.9.1"
ort = { version = "=2.0.0-rc.13", default-features = false, features = ["load-dynamic"] }
regex = "=1.11.3"
reqwest = { version = "=0.12.28", default-features = false, features = ["rustls-tls"] }
tokio = { version = "=1.47.5", features = ["rt-multi-thread", "macros", "fs", "io-util"] }
whatlang = "=0.16.4"

[dev-dependencies]
hound = "=3.5.1"
