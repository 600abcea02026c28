[package]
name = "patternities"
version = "0.1.0"
edition = "2021"
publish = false

[dependencies]
enocoro128v2 = "*"
nanorand = "*"
