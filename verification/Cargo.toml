[package]
name = "fordocu"
version = "0.2.0"
edition = "2021"
publish = false

[dependencies]
anyhow = "1"
chrono = "0.4"
clap = { version = "4", features = ["derive"] }
dialoguer = "0.11"
hostname = "0.4"
indicatif = "0.17"
md5 = "0.7"
sha1 = "0.10"
sha2 = "0.10"
sysinfo = "0.33"
walkdir = "2"
whoami = "1"
