[package]
name = "clipboard_history"
version = "0.1.0"
edition = "2021"
publish = false

[dependencies]
arboard = "*"
base64 = "*"
image = { version = "*", default-features = false, features = ["png"] }
sqlx = { version = "*", default-features = false, features = ["runtime-tokio", "sqlite", "macros"] }
tokio = { version = "*", features = ["rt-multi-thread", "macros", "time"] }
