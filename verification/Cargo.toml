[package]
name = "hust_network_login"
version = "0.1.0"
edition = "2021"
publish = false

[dependencies]
minreq = "2"
urlencoding = "2"
