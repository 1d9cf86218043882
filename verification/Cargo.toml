[package]
name = "keylayers"
version = "0.1.0"
edition = "2021"
publish = false

[dependencies]
multimap = "*"
rdev = "*"
kdl = "*"
serde = { version = "*", features = ["derive"] }
serde_json = "*"
anyhow = "*"
thiserror = "*"
log = "*"
