[package]
name = "imessage_database"
version = "0.1.0"
edition = "2021"
publish = false

[dependencies]
chrono = "=0.4.45"
plist = "=1.10.1"
rusqlite = { version = "=0.40.2", features = ["blob", "bundled"] }
