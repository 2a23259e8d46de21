[package]
name = "jettison"
version = "0.1.0"
edition = "2021"
publish = false

[dependencies]
percent-encoding = "2"
semver = "1"
shell-escape = "0.1"
