[package]
name = "k_print"
version = "0.1.0"
edition = "2021"
publish = false

[dependencies]
clap = { version = "4", features = ["derive"] }
env_logger = "0.11"
image = { version = "0.25", default-features = false, features = ["png", "jpeg"] }
ipp = { version = "5", default-features = false, features = ["client"] }
log = "0.4"
serde = { version = "1", features = ["derive"] }
thiserror = "1"
toml = "0.8"
