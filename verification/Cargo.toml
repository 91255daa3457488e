[package]
name = "textbridge"
version = "0.1.0"
edition = "2021"
publish = false

[dependencies]
chardet = "=0.2.4"
textcode = "=0.2.2"
cxx = "=1.0.202"
