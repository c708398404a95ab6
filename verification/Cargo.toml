[package]
name = "shib_gotham"
version = "0.2.0"
edition = "2021"
publish = false

[dependencies]
percent-encoding = "2"
gotham = "0.7"
gotham_derive = "0.7"
hyper = "0.14"
futures = "0.3"
log = "0.4"
serde = "1"
serde_derive = "1"
