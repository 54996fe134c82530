[package]
name = "progest"
version = "0.1.0"
edition = "2021"
publish = false

[dependencies]
brotli = "=9.0.0"
bson = "=2.15.0"
chrono = "=0.4.45"
clap = { version = "=4.6.7", features = ["derive"] }
getset = "=0.1.7"
indextree = "=4.9.2"
rmp-serde = "=1.3.1"
serde = { version = "=1.0.229", features = ["derive"] }
serde_indextree = "=0.2.0"
ulid = "=1.2.1"
uuidv7 = "=0.1.8"

[dev-dependencies]
regex = "=1.13.1"
