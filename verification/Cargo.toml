[package]
name = "ls"
version = "0.1.0"
edition = "2021"
publish = false

[dependencies]
colored = "2"
libc = "0.2"
structopt = "0.3"
users = "0.11"
