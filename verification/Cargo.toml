[package]
name = "mpeg2ts-reader"
version = "0.15.0"
edition = "2021"
publish = false

[dependencies]
fixedbitset = "*"
smptera-format-identifiers-rust = "*"
encoding = "*"

[dev-dependencies]
hex = "*"
