[package]
name = "udbg_core"
version = "0.1.0"
edition = "2021"
publish = false

[dependencies]
goblin = "*"
cpp_demangle = "*"
nix = { version = "*", features = ["signal"] }
libc = "*"
parking_lot = "*"
arc-swap = "*"
