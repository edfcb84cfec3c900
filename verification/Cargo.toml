[package]
name = "fvrs_core"
version = "0.1.0"
edition = "2021"
publish = false

[dependencies]
blake3 = "1"
chrono = { version = "0.4", features = ["serde"] }
glob = "0.3"
hex = "0.4"
md5 = "0.7"
notify = "6"
regex = "1"
ripemd = "0.1"
serde = { version = "1", features = ["derive"] }
serde_json = "1"
sha1 = "0.10"
sha2 = "0.10"
thiserror = "1"
walkdir = "2"
