[package]
name = "audioserve_auth"
version = "0.1.0"
edition = "2021"
publish = false

[dependencies]
data-encoding = "*"
futures = "*"
hyper = "*"
ring = "*"
url = "*"
