[package]
name = "h264_reader"
version = "0.1.0"
edition = "2021"
publish = false

[dependencies]
memchr = "=2.8.3"
hex-slice = "=0.1.4"
rfc6381-codec = "=0.3.0"
