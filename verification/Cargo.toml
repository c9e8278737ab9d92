[package]
name = "telekio"
version = "0.1.0"
edition = "2021"
publish = false

[dependencies]
sha2 = "=0.11.1"
toml = "=1.1.8"
serde_json = "=1.0.154"
sysinfo = "=0.40.1"
