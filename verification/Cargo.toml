[package]
name = "tau_extensions"
version = "0.1.0"
edition = "2021"
publish = false

[dependencies]
backon = "1"
dialoguer = "*"
dirs = "*"
futures-util = { version = "0.3", features = ["sink"] }
globset = "0.4"
handlebars = "6"
ignore = "0.4"
libc = "0.2"
rhai = { version = "1", features = ["sync", "serde"] }
serde = { version = "1", features = ["derive"] }
serde_json = "1"
similar = { version = "2", features = ["inline"] }
tokio = { version = "1", features = ["rt-multi-thread", "net", "time", "sync", "macros"] }
tokio-tungstenite = { version = "*", features = ["connect", "rustls-tls-webpki-roots"] }
tracing = "0.1"
ureq = { version = "3", features = ["json"] }
