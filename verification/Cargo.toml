[package]
name = "drawcanvas"
version = "0.1.0"
edition = "2021"
publish = false

[dependencies]
glam = "=0.34.1"
log = "=0.4.34"
miniquad = "=0.4.11"
simplelog = "=0.12.2"
zmq = "=0.10.0"

[dev-dependencies]
darkfi-serial = "=0.5.1"
