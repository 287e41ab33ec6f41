[package]
name = "eprice"
version = "0.1.0"
edition = "2021"
publish = false

[dependencies]
anyhow = "=1.0.104"
bcrypt = "=0.19.3"
chrono = "=0.4.45"
log = "=0.4.35"
once_cell = "=1.21.4"
regex = "=1.13.1"
serde = { version = "=1.0.229", features = ["derive"] }
serde_json = "=1.0.154"
sha2 = "0.10"
thiserror = "=2.0.21"
uuid = { version = "=1.29.1", features = ["v4"] }
