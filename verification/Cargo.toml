[package]
name = "rusty_ddns"
version = "0.1.0"
edition = "2021"
publish = false

[dependencies]
reqwest = { version = "0.12", default-features = false, features = ["blocking", "json", "rustls-tls"] }
nix = { version = "0.29", features = ["net"] }
serde = { version = "1", features = ["derive"] }
serde_json = "1"
clap = { version = "4", features = ["derive"] }
clap-verbosity-flag = "3"
env_logger = "0.11"
log = "0.4"
