[package]
name = "suimu"
version = "0.4.0"
edition = "2021"
publish = false

[dependencies]
twox-hash = "1"
chrono = "0.4"
anyhow = "1"
csv = "1"
serde = { version = "1", features = ["derive"] }
serde_json = "1"
structopt = "0.3"
log = "0.4"
pretty_env_logger = "0.5"
levenshtein = "1"
regex = "1"
unicode-normalization = "0.1"
requestty = "0.5"
