[package]
name = "binmap"
version = "0.1.0"
edition = "2021"
publish = false

[dependencies]
sha2 = "0.10"
similar = "2"
toml_edit = "0.22"
serde = { version = "1", features = ["derive"] }
serde_json = "1"
thiserror = "2"
regex = "1"
clap = { version = "4", features = ["derive"] }
