[package]
name = "my_ssh"
version = "0.1.0"
edition = "2021"
publish = false

[dependencies]
shell-words = "1"
bcrypt = "0.15"
rustls-pemfile = "1"
tokio = { version = "1", features = ["rt-multi-thread", "net", "io-util", "sync", "macros"] }
tokio-rustls = "0.24"
colored = "2"
