[package]
name = "grokdb"
version = "0.1.0"
edition = "2021"
publish = false

[dependencies]
chrono = "0.4"
rustc-serialize = "0.3"
iron = "0.6"
router = "0.6"
bodyparser = "0.8"
serde = { version = "1", features = ["derive"] }
rusqlite = { version = "*", features = ["backup", "bundled"] }
