[package]
name = "httpd2"
version = "0.1.0"
edition = "2021"
publish = false

[dependencies]
httpdate = "1"
libc = "0.2"
nix = "0.26"
