[package]
name = "brickellstatus_runtime"
version = "0.1.0"
edition = "2021"
publish = false

[dependencies]
serde = { version = "1", features = ["derive"] }
serde_json = "1"
sha2 = "0.10"
jiff = "0.2"
url = "2"
thiserror = "2"
reqwest = { version = "0.12", default-features = false, features = ["rustls-tls"] }
rustls = { version = "0.23", default-features = false, features = ["ring", "std", "tls12"] }
tokio = { version = "1", features = ["sync", "time", "rt", "macros"] }
tokio-util = "0.7"
futures = "0.3"
uuid = { version = "1", features = ["v7"] }
tracing = "0.1"
async-trait = "0.1"
