[package]
name = "mko_core"
version = "0.3.0"
edition = "2021"
publish = false

[dependencies]
atomic-write-file = "0.2"
cap-std = "*"
chrono = { version = "0.4", features = ["serde"] }
chrono-tz = "*"
getrandom = "0.3"
hex = "0.4"
hostname = "0.4"
nix = { version = "*", features = ["fs"] }
pdf-extract = "*"
serde = { version = "1", features = ["derive"] }
serde_json = "1"
serde-saphyr = "*"
sha2 = "0.10"
sysinfo = "*"
unicode-normalization = "0.1"
