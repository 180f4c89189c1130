[package]
name = "secondary_locks"
version = "0.1.0"
edition = "2021"
publish = false

[dependencies]
fail = "=0.5.1"
protobuf = "=2.28.0"
