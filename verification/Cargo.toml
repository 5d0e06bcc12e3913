[package]
name = "point_monitor"
version = "0.1.0"
edition = "2021"
publish = false

[dependencies]
chrono = "0.4"
regex = "1"
uuid = { version = "1", features = ["v4"] }
ua-parser = "*"
serde = { version = "1", features = ["derive"] }
serde_json = "1"
reqwest = { version = "0.12", features = ["json"] }
tokio = { version = "1", features = ["full"] }
async-trait = "0.1"
actix-web = { version = "4", default-features = false, features = ["macros"] }
diesel = { version = "2.2", features = ["sqlite", "r2d2", "chrono"] }
diesel_migrations = "2.2"
axum = "*"
tower-http = { version = "*", default-features = false, features = ["cors"] }
redis = { version = "*", features = ["r2d2"] }
r2d2 = "0.8"
backon = "1"
env_logger = "*"
log = "0.4"
once_cell = "1"
anyhow = "1"
thiserror = "*"
ctrlc = "3"
clickhouse = "*"
kafka = { version = "*", default-features = false }
config = { version = "*", default-features = false, features = ["toml"] }
trust-dns-resolver = "0.23"
native-tls = "0.2"
tokio-native-tls = "0.3"
x509-parser = "*"
