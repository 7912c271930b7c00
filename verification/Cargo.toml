[package]
name = "trop"
version = "0.1.0"
edition = "2021"
publish = false

[dependencies]
home = "=0.5.12"
libc = "=0.2.191"
log = "=0.4.35"
serde = { version = "=1.0.229", features = ["derive"] }
serde_json = "=1.0.154"
gix = { version = "=0.90.0", default-features = false, features = ["sha1"] }
