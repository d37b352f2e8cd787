[package]
name = "vvv"
version = "0.1.0"
edition = "2021"
publish = false

[dependencies]
ratatui = "=0.29.0"
toml = "=0.8.23"
ast-grep-core = "*"
ast-grep-language = "*"
