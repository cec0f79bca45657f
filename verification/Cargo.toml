[package]
name = "cicada"
version = "0.1.0"
edition = "2021"
publish = false

[dependencies]
mortal = "=0.2.4"
regex = "=1.13.1"
dirs = "=7.0.0"
yaml-rust = "0.4"
