[package]
name = "pumpkin_net"
version = "0.1.0"
edition = "2021"
publish = false

[dependencies]
mio = { version = "*", features = ["net", "os-poll"] }
ctrlc = "*"
log = "*"
simple_logger = "*"
