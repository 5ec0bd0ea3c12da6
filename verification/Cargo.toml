[package]
name = "slotted"
version = "0.1.0"
edition = "2021"
publish = false

[dependencies]
hash40 = "=1.3.1"
once_cell = "=1.21.4"
paste = "=1.0.15"
skyline = "=0.6.0"
