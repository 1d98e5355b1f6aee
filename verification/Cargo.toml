[package]
name = "rooster"
version = "0.1.0"
edition = "2021"
publish = false

[dependencies]
byteorder = "1"
clipboard = "0.5"
getopts = "0.2"
libc = "0.2"
quale = "1.0"
rand = "0.3"
rpassword = "5.0"
rust-crypto = "0.2.36"
serde = { version = "1", features = ["derive"] }
serde_derive = "1"
serde_json = "1"
shell-escape = "0.1"
