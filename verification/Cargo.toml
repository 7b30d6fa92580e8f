[package]
name = "nordvpn_rs"
version = "0.1.0"
edition = "2021"
publish = false

[dependencies]
chrono = { version = "0.4", features = ["serde"] }
uuid = { version = "1", features = ["v4"] }
axum = "0.8"
bytes = "1"
clap = { version = "4", features = ["derive"] }
dns-lookup = "2"
env_logger = "*"
gethostname = "*"
http = "1"
http-body-util = "0.1"
hyper = { version = "1", features = ["server", "client", "http1"] }
hyper-util = { version = "0.1", features = ["tokio"] }
local-ip-address = "*"
log = "0.4"
serde = { version = "1", features = ["derive"] }
serde_derive = "1"
serde_json = "1"
tokio = { version = "1", features = ["full"] }
tokio-util = "0.7"
utoipa = "5"
utoipa-axum = "0.2"
utoipa-swagger-ui = { version = "9", features = ["axum"] }
