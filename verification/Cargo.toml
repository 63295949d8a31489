[package]
name = "neutrino_tau"
version = "0.1.0"
edition = "2021"
publish = false

[dependencies]
anyhow = "1"
itertools = "*"
native-dialog = "*"
num_cpus = "1"
serde = { version = "1", features = ["derive"] }
serde_json = "1"
tempfile = "3"
toml = "*"
wana_kana = "*"
wav_io = "*"

[dev-dependencies]
lazy-regex = "*"
