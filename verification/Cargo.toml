[package]
name = "bigiron"
version = "0.1.0"
edition = "2021"
publish = false

[dependencies]
serde = { version = "1", features = ["derive"] }
serde_json = "1"
serde_yaml = "0.9"
rand = "0.8"
sha2 = "0.10"
uuid = { version = "1", features = ["v4"] }
ipnet = "2"
libc = "0.2"
fork = "0.1"
sysinfo = "0.29"
url = "2"
clap = { version = "4", features = ["derive"] }
virt = "*"

[dev-dependencies]
hex = "0.4"
