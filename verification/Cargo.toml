[package]
name = "rtps_idl"
version = "0.1.0"
edition = "2021"
publish = false

[dependencies]
getopts = "*"
