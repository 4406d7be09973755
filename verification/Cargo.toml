[package]
name = "blaze"
version = "0.1.0"
edition = "2021"
publish = false

[dependencies]
dirs = "*"
tantivy = "*"
rusqlite = { version = "*", features = ["bundled"] }
jwalk = "*"
serde = { version = "1", features = ["derive"] }
serde_json = "1"
tokio = { version = "1", features = ["rt-multi-thread", "sync", "macros", "signal", "time"] }
futures-util = "0.3"
fsevent-stream = "*"
