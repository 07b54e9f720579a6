[package]
name = "builder_supervisor"
version = "0.1.0"
edition = "2021"
publish = false

[dependencies]
getopts = "*"
libc = "*"
markdown = "*"
mustache = "*"
nickel = "*"
rustc-serialize = "*"
