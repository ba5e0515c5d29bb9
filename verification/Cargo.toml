[package]
name = "grease_socket"
version = "0.1.0"
edition = "2021"
publish = false

[dependencies]
log = "=0.4.34"
mio = "=0.6.23"
mio-more = "=0.1.0"

[dev-dependencies]
rand = "0.4"
