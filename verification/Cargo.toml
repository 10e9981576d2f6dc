[package]
name = "compio_driver"
version = "0.1.0"
edition = "2021"
publish = false

[dependencies]
flume = "*"
io-uring = "0.7"
libc = "0.2"
polling = "3"
rustix = { version = "1", features = ["fs"] }
smallvec = "1"
