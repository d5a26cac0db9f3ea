[package]
name = "rxdp"
version = "0.3.0"
edition = "2021"
publish = false

[dependencies]
bitflags = "1"
crossbeam-channel = "0.5"
errno = "0.2"
lazy_static = "1.4"
libbpf-sys = "*"
libc = "0.2"
