[package]
name = "blender_rs"
version = "0.1.0"
edition = "2021"
publish = false

[dependencies]
regex = "1"
url = "2"
dirs = "5"
semver = { version = "1", features = ["serde"] }
serde = { version = "1", features = ["derive"] }
serde_json = "1"
blend = "*"
ureq = "3"
attohttpc = { version = "*", default-features = false }
tar = "0.4"
xz = "0.1"
zip = { version = "2", default-features = false, features = ["deflate"] }
dmg = "*"
