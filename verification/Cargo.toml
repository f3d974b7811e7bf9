[package]
name = "lan_party_tools"
version = "0.1.0"
edition = "2021"
publish = false

[dependencies]
clap = "*"
fs_extra = "*"
pbr = "*"
reqwest = { version = "*", default-features = false, features = ["blocking", "rustls-tls"] }
systemstat = "*"
