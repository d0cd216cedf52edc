[package]
name = "notify_fsevent"
version = "0.1.0"
edition = "2021"
publish = false

[dependencies]
fsevent-sys = "4.0.0"
libc = "0.2"
log = "0.4"

[dev-dependencies]
bitflags = "2.7.0"
