[package]
name = "lanzaboote"
version = "0.1.0"
edition = "2021"
publish = false

[dependencies]
anyhow = "1"
clap = { version = "4", features = ["derive"] }
goblin = "*"
log = "0.4"
serde_json = "1"
sha2 = "*"
stderrlog = "*"
uefi = { version = "*", features = ["alloc"] }
