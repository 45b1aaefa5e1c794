[package]
name = "skanuvaty"
version = "0.1.0"
edition = "2021"
publish = false

[dependencies]
trust-dns-client = { version = "=0.21.2", default-features = false }
tokio = { version = "=1.54.1", features = ["full"] }
async-channel = "=1.9.0"
futures = "=0.3.34"
indicatif = "=0.16.2"
# indicatif 0.16 switches off the default features of console, and does not
# build against console 0.16 without `std`: this line switches them on again.
console = "=0.16.6"
clap = { version = "=3.2.25", features = ["derive"] }
serde = { version = "=1.0.229", features = ["derive"] }
serde_json = "=1.0.154"
