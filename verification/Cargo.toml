[package]
name = "fioul"
version = "0.1.0"
edition = "2021"
publish = false

[dependencies]
aho-corasick = "1"
axum = "0.6"
chrono = { version = "0.4", features = ["serde"] }
chrono-tz = "0.8"
ciborium = "0.2"
clap = { version = "4", features = ["derive", "env"] }
color-eyre = "0.6"
directories = "5"
encoding_rs = "0.8"
encoding_rs_io = "0.1"
enum-map = { version = "2", features = ["serde"] }
envious = "0.2"
fnv = "1"
geo = { version = "0.30", default-features = false }
humantime-serde = "1"
log = "0.4"
lru = "0.12"
reqwest = { version = "0.11", default-features = false, features = ["rustls-tls"] }
roxmltree = "0.19"
serde = { version = "1", features = ["derive"] }
serde_json = "1"
thiserror = "1"
tokio = { version = "1", features = ["full"] }
toml = "0.8"
tower-http = { version = "0.4", features = ["trace"] }
tracing = "0.1"
tracing-subscriber = { version = "0.3", features = ["env-filter"] }
ureq = { version = "3", features = ["json"] }
zip = { version = "2", default-features = false, features = ["deflate"] }
