[package]
name = "vim_compose_host"
version = "0.1.0"
edition = "2021"
publish = false

[dependencies]
ammonia = "=4.2.4"
byteorder = "=1.5.0"
log = "0.4"
nix = { version = "0.29", features = ["signal"] }
notify = "6"
scopeguard = "1"
serde = { version = "1", features = ["derive"] }
serde_json = "=1.0.154"
simplelog = "0.12"
tempdir = "0.3"

[dev-dependencies]
tempfile = "3"
