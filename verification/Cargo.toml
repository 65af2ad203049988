[package]
name = "eltor_backend"
version = "0.1.0"
edition = "2021"
publish = false

[dependencies]
rand = "0.8"
zip = { version = "7", default-features = false, features = ["deflate"] }
serde = { version = "1", features = ["derive"] }
serde_json = "1"
tokio = { version = "1", features = ["full"] }
axum = "0.7"
reqwest = { version = "0.12", default-features = false, features = ["blocking", "rustls-tls"] }
dirs = "5"
libc = "0.2"
netstat2 = "0.11"
sysinfo = "0.33"
chrono = { version = "0.4", features = ["serde"] }
log = "0.4"
local-ip-address = "0.6"
ip2location = "0.5"
async-stream = "0.3"
futures = "0.3"
tokio-stream = { version = "0.1", features = ["sync"] }
tokio-util = "0.7"
