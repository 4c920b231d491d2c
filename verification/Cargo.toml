[package]
name = "boxflow"
version = "0.1.0"
edition = "2021"
publish = false

[dependencies]
euclid = "=0.22.14"
font-kit = "=0.6.0"
skribo = "=0.1.0"
