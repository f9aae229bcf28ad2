[package]
name = "linksy"
version = "0.1.0"
edition = "2021"
publish = false

[dependencies]
anyhow = "*"
config = "*"
dirs = "*"
imap = "*"
lettre = { version = "*", default-features = false, features = ["builder", "smtp-transport", "tokio1", "tokio1-native-tls"] }
mail-parser = "*"
native-tls = "*"
serde = { version = "*", features = ["derive"] }
serde_json = "*"
sled = "*"
tokio = { version = "*", features = ["io-util", "macros", "net", "rt", "rt-multi-thread", "sync", "time"] }
tokio-native-tls = "*"
uuid = { version = "*", features = ["v4"] }
