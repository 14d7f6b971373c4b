[package]
name = "mashq"
version = "0.1.0"
edition = "2021"
publish = false

[dependencies]
image = "*"
ab_glyph = "*"
harfbuzz_rs = "*"
resvg = "*"
noor = "*"
