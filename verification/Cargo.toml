[package]
name = "tauri_plugin_sqlite"
version = "0.1.0"
edition = "2021"
publish = false

[dependencies]
sqlite = "=0.26.0"
serde = "1"
serde_json = "1"
thiserror = "1"
