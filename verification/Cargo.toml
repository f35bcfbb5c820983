[package]
name = "solidc"
version = "0.1.0"
edition = "2021"

[dependencies]
backtrace = "*"
bimap = "*"
scoped-tls = "*"
