[package]
name = "rvkernel"
version = "0.1.0"
edition = "2021"
publish = false

[dependencies]
fdt = "0.1"
bitflags = "2"
regex = "1"
cc = "1"
