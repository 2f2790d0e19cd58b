[package]
name = "zerra_core"
version = "0.1.0"
edition = "2021"
publish = false

[dependencies]
anyhow = "*"
axum = { version = "*", features = ["ws"] }
dashmap = "*"
futures-util = "*"
jiff = "*"
password-auth = "*"
rand = "*"
rmp-serde = "*"
scopeguard = "*"
serde = { version = "*", features = ["derive"] }
serde_bytes = "*"
serde_repr = "*"
serde_yaml2 = "*"
sqlx = { version = "*", default-features = false, features = ["postgres", "runtime-tokio", "macros", "migrate"] }
thiserror = "*"
tokio = { version = "*", features = ["rt-multi-thread", "macros", "sync", "time", "net"] }
tokio-stream = "*"
tracing = "*"
uuid = { version = "*", features = ["v4"] }
