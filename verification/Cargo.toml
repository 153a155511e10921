[package]
name = "iris"
version = "0.1.0"
edition = "2021"
publish = false

[dependencies]
toml = "0.8"
gdbstub = "0.7"
gdbstub_arch = "0.3"
parking_lot = "0.12"
libc = "0.2"
shared_memory = "0.12"
raw_sync = "0.1"
windows-sys = { version = "0.59", features = ["Win32_Foundation", "Win32_System_Threading"] }
