[package]
name = "spindle"
version = "0.1.0"
edition = "2021"
publish = false

[dependencies]
async-nats = "*"
base64 = "0.22"
bytes = "1"
futures-util = "0.3"
nkeys = "0.4"
quinn = { version = "0.11", default-features = false, features = ["runtime-tokio", "rustls-ring"] }
rand = "0.8"
rcgen = "0.13"
rtc-ice = "*"
rtc-shared = "*"
rustls = { version = "0.23", default-features = false, features = ["ring", "std"] }
sansio = "*"
sha2 = "0.10"
thiserror = "2"
tokio = { version = "1", features = ["net", "rt-multi-thread", "sync", "time", "io-util", "macros"] }
tracing = "0.1"
x25519-dalek = { version = "2", features = ["static_secrets"] }
