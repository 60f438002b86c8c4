[package]
name = "chacc"
version = "0.1.0"
edition = "2021"
publish = false

[dependencies]
hexf-parse = "*"
lexopt = "*"
libc = "*"
line-index = "*"
rustc-hash = "*"
tempfile = "*"
thiserror = "*"
which = "*"
