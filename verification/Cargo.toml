[package]
name = "lobby_lib"
version = "0.1.0"
edition = "2021"
publish = false

[dependencies]
bytes = "1"
serde = { version = "1", features = ["derive"] }
bincode = "1"
mio = { version = "1", features = ["net", "os-poll"] }
