[package]
name = "shadow_player"
version = "0.1.0"
edition = "2021"
publish = false

[dependencies]
url = "2"
uuid = { version = "1", features = ["v4"] }
subtp = "*"
roxmltree = "*"
sha2 = "*"
hmac = "*"
base64 = "*"
serde = { version = "1", features = ["derive"] }
serde_json = "1"
rusqlite = { version = "*", features = ["bundled"] }
dunce = "1"
tempfile = "3"
fslock = "*"
httpdate = "1"
