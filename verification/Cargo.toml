[package]
name = "guest_bridges"
version = "0.1.0"
edition = "2021"
publish = false

[dependencies]
libc = "0.2"
remain = "0.2"
static_assertions = "1.1"
thiserror = "1.0"
