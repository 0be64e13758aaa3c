[package]
name = "openshell"
version = "0.1.0"
edition = "2021"
publish = false

[dependencies]
anyhow = "1"
bollard = "0.19"
bytes = "1"
futures = "0.3"
hex = "0.4"
hmac = "0.12"
libc = "0.2"
miette = "7"
nix = { version = "0.29", features = ["fs", "process", "term", "user"] }
rand_core = { version = "0.6", features = ["getrandom"] }
ratatui = { version = "0.29", default-features = false }
reqwest = { version = "0.12", default-features = false }
russh = { version = "0.54", default-features = false, features = ["ring"] }
serde_json = "1"
sha2 = "0.10"
tokio = { version = "1", features = ["io-util", "macros", "net", "rt-multi-thread", "sync", "time"] }
tonic = { version = "0.12", default-features = false }
tracing = "0.1"
uuid = { version = "1", features = ["v4"] }
