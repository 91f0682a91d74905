[package]
name = "ocalrs"
version = "0.1.0"
edition = "2021"
publish = false

[dependencies]
fastrand = "=2.5.0"
anyhow = "=1.0.104"
log = "=0.4.35"
env_logger = "=0.11.11"
serde = { version = "=1.0.229", features = ["derive"] }
toml = "=1.2.1"
image = { version = "=0.25.10", default-features = false, features = ["png"] }
xcap = "=0.9.8"
enigo = "=0.6.1"
ocrs = "=0.13.1"
rten = "=0.26.0"
rten-imageproc = "=0.26.0"
