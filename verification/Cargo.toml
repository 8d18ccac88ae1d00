[package]
name = "record_vm"
version = "0.1.0"
edition = "2021"
publish = false

[dependencies]
hashbrown = "*"
regex = "1"
ryu = "1"
smallvec = "1"
