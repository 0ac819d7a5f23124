[package]
name = "silero"
version = "0.1.0"
edition = "2021"
publish = false

[dependencies]
anyhow = "=1.0.104"
av-codec = "=0.3.1"
av-data = "=0.4.4"
av-format = "=0.7.1"
clap = { version = "=4.6.7", features = ["derive"] }
env_logger = "=0.11.11"
hound = "=3.5.1"
log = "=0.4.34"
ndarray = "=0.17.2"
ort = { version = "=2.0.0-rc.15", default-features = false, features = ["std", "ndarray", "load-dynamic"] }
rubato = "=0.14.1"
serde_json = "=1.0.154"
