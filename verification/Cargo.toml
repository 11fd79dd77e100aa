[package]
name = "fluxmux"
version = "0.1.0"
edition = "2021"
publish = false

[dependencies]
anyhow = "1"
arrow = { version = "*", default-features = false }
async-trait = "0.1"
avro-rs = "0.13"
chrono = { version = "0.4", features = ["serde"] }
clap = { version = "4", features = ["derive"] }
csv = "1"
futures = "0.3"
futures-util = "0.3"
hex = "0.4"
parquet = { version = "*", default-features = false, features = ["arrow"] }
rdkafka = "*"
rmp-serde = "1"
serde = { version = "1", features = ["derive"] }
serde_cbor = "0.11"
serde_json = { version = "1", features = ["preserve_order"] }
serde_yaml = "0.9"
tokio = { version = "1", features = ["full"] }
tokio-postgres = { version = "0.7", features = ["with-serde_json-1"] }
toml = "*"
url = "2"
