[package]
name = "pdu_loop"
version = "0.1.0"
edition = "2021"
publish = false

[dependencies]
smoltcp = { version = "0.8", default-features = false, features = ["medium-ethernet", "proto-ipv4", "socket-raw"] }
async-io = "1"
futures-lite = "1"
log = "0.4"
libc = "0.2"
