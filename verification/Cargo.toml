[package]
name = "tauri-acl"
version = "0.1.0"
edition = "2021"
publish = false

[dependencies]
anyhow = "1"
cargo_metadata = "0.18"
clap = { version = "4", features = ["derive", "env"] }
ctrlc = "3"
dialoguer = "0.11"
heck = "0.4"
local-ip-address = "*"
log = { version = "0.4", features = ["kv"] }
os_pipe = "1"
proc-macro2 = "1"
quote = "1"
schemars = { version = "0.8", features = ["url"] }
semver = "1"
serde = { version = "1", features = ["derive"] }
serde_json = "1"
serde_with = "3"
shared_child = "1"
url = { version = "2", features = ["serde"] }
