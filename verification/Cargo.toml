[package]
name = "errore"
version = "0.1.0"
edition = "2021"
publish = false

[dependencies]
const-fnv1a-hash = "1"
once_cell = "1"
log = "0.4"
pretty_env_logger = "0.5"
clap = { version = "4", features = ["derive"] }
