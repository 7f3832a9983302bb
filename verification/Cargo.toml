[package]
name = "weaver_server"
version = "0.1.0"
edition = "2021"
publish = false

[dependencies]
async-trait = "0.1"
base64 = "0.22"
bytes = "1"
clap = { version = "4", features = ["derive", "env"] }
comfy-table = "7"
crossterm = "*"
http = "1"
http-body-util = "0.1"
hyper = { version = "1", features = ["server", "http1", "http2"] }
hyper-util = { version = "0.1", features = ["server", "server-auto", "http1", "http2", "tokio"] }
instant-acme = { version = "*", default-features = false, features = ["ring", "hyper-rustls"] }
libc = "0.2"
rcgen = "*"
rustls = { version = "0.23", default-features = false, features = ["ring", "std", "tls12", "logging"] }
sea-orm = { version = "*", default-features = false, features = ["macros", "sqlx-sqlite", "runtime-tokio-rustls"] }
sea-orm-migration = { version = "*", default-features = false, features = ["sqlx-sqlite", "runtime-tokio-rustls"] }
serde = { version = "1", features = ["derive"] }
serde_json = "1"
sha2 = "0.10"
socket2 = "*"
tempfile = "3"
thiserror = "*"
tokio = { version = "1", features = ["full"] }
tokio-rustls = { version = "*", default-features = false, features = ["ring", "tls12", "logging"] }
tokio-tungstenite = "*"
tokio-util = { version = "0.7", features = ["rt"] }
tracing = "0.1"
tracing-subscriber = { version = "0.3", features = ["env-filter"] }
