[package]
name = "quilon"
version = "0.9.1"
edition = "2021"
publish = false

[dependencies]
corosensei = "=0.2.2"
inkwell = { version = "=0.5.0", features = ["llvm14-0-prefer-dynamic"] }
libc = "=0.2.191"
mio = { version = "=1.2.4", features = ["os-poll", "net", "os-ext"] }
