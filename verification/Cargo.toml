[package]
name = "cbt"
version = "0.1.0"
edition = "2021"
publish = false

[dependencies]
sha1 = "=0.11.0"
bytes = "=1.12.1"
bitvec = "=1.1.1"
log = "=0.4.34"
url = "=2.5.8"
serde = "=1.0.229"
serde_derive = "=1.0.229"
serde_bytes = "=0.11.19"
serde_bencode = "=0.2.4"
reqwest = { version = "=0.13.5", default-features = false }
tokio = { version = "=1.53.2", features = ["rt", "rt-multi-thread", "sync", "macros", "net", "time", "io-util"] }
tokio-util = { version = "=0.7.19", features = ["codec"] }
futures = "=0.3.34"
