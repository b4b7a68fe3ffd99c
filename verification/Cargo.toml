[package]
name = "boost_meter"
version = "0.1.0"
edition = "2021"
publish = false

[dependencies]
rnet = "=0.3.1"
windows-capture = "=1.3.6"
