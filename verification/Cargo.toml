[package]
name = "tokendog_router"
version = "0.1.0"
edition = "2021"
publish = false

[dependencies]
rand = "0.8"
sha2 = "0.10"
subtle = "2"
url = "2"
tracing = "0.1"
serde = { version = "1", features = ["derive"] }
serde_json = "1"
axum = "0.8"
tokio = { version = "1", features = ["full"] }
reqwest = { version = "0.12", default-features = false, features = ["json", "stream", "rustls-tls"] }
clap = { version = "4", features = ["derive", "env"] }
tracing-subscriber = { version = "0.3", features = ["env-filter", "json"] }
tracing-appender = "0.2"
tower-http = { version = "0.6", features = ["trace"] }
http-body-util = "0.1"
futures = "0.3"
flate2 = "1"
chrono = "0.4"
thiserror = "2"
kube = { version = "*", features = ["runtime", "client", "rustls-tls"] }
k8s-openapi = { version = "*", features = ["latest"] }
rustls = { version = "0.23", features = ["ring"] }
