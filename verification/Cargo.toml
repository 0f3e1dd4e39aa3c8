[package]
name = "nulang"
version = "0.1.0"
edition = "2021"
publish = false

[dependencies]
ariadne = "0.4"
blake3 = { version = "1", features = ["pure"] }
flate2 = "1"
hex = "0.4"
serde = { version = "1", features = ["derive"] }
serde_json = "1"
tar = { version = "0.4", default-features = false }
zstd = "0.13"
