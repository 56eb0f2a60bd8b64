[package]
name = "lazynote_core"
version = "0.1.0"
edition = "2021"
publish = false

[dependencies]
uuid = { version = "1", features = ["v4"] }
regex = "1"
rusqlite = { version = "*", features = ["bundled"] }
log = "0.4"
once_cell = "1"
flexi_logger = "*"
serde = { version = "1", features = ["derive"] }
