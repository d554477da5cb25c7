[package]
name = "gh_create_release"
version = "0.1.0"
edition = "2021"
publish = false

[dependencies]
chrono = "*"
getopts = "*"
serde = "*"
serde_derive = "*"
toml = "*"
