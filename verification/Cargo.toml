[package]
name = "ail_core"
version = "0.1.0"
edition = "2021"
publish = false

[dependencies]
regex = "1"
serde = { version = "1", features = ["derive"] }
serde_json = "1"
serde_yaml = "0.9"
dirs = "5"
rusqlite = { version = "*", features = ["bundled"] }
sha1 = "0.10"
uuid = { version = "1", features = ["v4"] }
tempfile = "3"
thiserror = "1"
interprocess = "2"
jsonschema = { version = "*", default-features = false }
