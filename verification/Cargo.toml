[package]
name = "hash_checker"
version = "0.1.0"
edition = "2021"
publish = false

[dependencies]
md5 = "=0.7.0"
sha1 = "0.10"
sha2 = "0.10"
crc32fast = "1"
hex = "0.4"
toml = "0.8"
serde_json = "1"
clap = { version = "4", features = ["derive"] }
winreg = "0.52"
