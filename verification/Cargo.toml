[package]
name = "backend"
version = "0.1.0"
edition = "2021"
publish = false

[dependencies]
regex = "=1.13.1"
hex = "=0.4.3"
getrandom = "=0.3.4"
url = "=2.5.8"
bindet = "=0.3.2"
random-string = "=1.1.0"
uuid = { version = "=1.29.0", features = ["v7", "serde"] }
serde = { version = "=1.0.229", features = ["derive"] }
serde_json = "=1.0.154"
toml = "=1.1.8"
tokio = { version = "=1.54.1", features = ["full"] }
chrono = { version = "=0.4.45", features = ["serde"] }
log = "=0.4.35"
thiserror = "=2.0.21"
axum = { version = "=0.8.9", features = ["multipart"] }
axum-extra = { version = "=0.10.3", features = ["cookie"] }
time = "=0.3.55"
futures = "=0.3.34"
argon2 = "=0.5.3"
redis = { version = "=1.8.1", features = ["tokio-comp"] }
diesel = { version = "=2.2.12", default-features = false, features = ["postgres_backend", "uuid", "chrono", "32-column-tables"] }
diesel-async = { version = "=0.5.2", features = ["postgres", "deadpool", "async-connection-wrapper"] }
clap = { version = "=4.6.7", features = ["derive"] }
lettre = { version = "=0.11.23", features = ["tokio1", "tokio1-native-tls"] }
tower-http = { version = "=0.6.11", features = ["cors"] }
tracing-subscriber = "=0.3.23"
bunny-api-tokio = { version = "=0.4.0", features = ["edge_storage"] }
