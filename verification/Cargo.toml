[package]
name = "x11rb_async"
version = "0.1.0"
edition = "2021"
publish = false

[dependencies]
x11rb-protocol = "*"
