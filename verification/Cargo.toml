[package]
name = "urlq"
version = "0.1.0"
edition = "2021"
publish = false

[dependencies]
percent-encoding = "1.0"
url = "1.7"
atty = "0.2"
either = "1"
structopt = "0.2"
