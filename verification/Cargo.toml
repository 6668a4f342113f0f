[package]
name = "eris"
version = "0.1.0"
edition = "2021"
publish = false

[dependencies]
ngrammatic = "*"
url = "*"
chrono = "*"
dirs = "*"
