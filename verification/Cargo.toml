[package]
name = "procsig"
version = "0.1.0"
edition = "2021"
publish = false

[dependencies]
memory_addr = "*"
axerrno = "*"
x86 = "*"
