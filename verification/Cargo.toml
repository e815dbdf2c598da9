[package]
name = "suricata_eve_sqlite_output"
version = "0.1.0"
edition = "2021"
publish = false

[dependencies]
rusqlite = { version = "*", features = ["bundled"] }
log = "*"
env_logger = "*"
