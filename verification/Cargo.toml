[package]
name = "launcher"
version = "0.1.0"
edition = "2021"
publish = false

[dependencies]
base64 = "0.22"
icns = "*"
plist = "1"
rayon = "1"
serde = { version = "1", features = ["derive"] }
serde_json = "1"
notify = "*"
sysinfo = "*"
