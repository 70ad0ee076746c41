[package]
name = "aeonmi"
version = "0.1.0"
edition = "2021"
publish = false

[dependencies]
unicode-ident = "1"
unicode-normalization = "0.1"
zeroize = "1"
sha2 = "0.10"
chacha20 = "0.9"
base64 = "0.22"
serde = { version = "1", features = ["derive"] }
serde_json = "1"
colored = "2"
dirs-next = "2"
whoami = "1"
rand = "0.8"
