[package]
name = "tendium"
version = "0.1.0"
edition = "2021"
publish = false

[dependencies]
byteorder = "1"
ifstructs = "0.1"
libc = "0.2"
tun = "0.6"
