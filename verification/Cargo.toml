[package]
name = "s3fs"
version = "0.1.0"
edition = "2021"
publish = false

[dependencies]
colored = "*"
crossbeam-channel = "*"
ctrlc = "*"
fuse = "0.3"
libc = "0.2"
log = "*"
serde = { version = "1", features = ["derive"] }
time = "0.1"
toml = "*"
users = "*"
