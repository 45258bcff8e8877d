[package]
name = "iracing_api"
version = "0.1.0"
edition = "2021"
publish = false

[dependencies]
base64ct = { version = "*", features = ["alloc"] }
sha2 = "*"
url = "*"
serde = { version = "*", features = ["derive"] }
reqwest = { version = "*", default-features = false, features = ["json", "cookies"] }
rpassword = "*"
time = { version = "*", features = ["serde-well-known"] }
