[package]
name = "rust_navigator"
version = "0.1.0"
edition = "2021"
rust-version = "1.95"
publish = false

[dependencies]
line-index = "=0.1.2"
lsp-server = "*"
lsp-types = "*"
ra_ap_syntax = "=0.0.300"
serde_json = "*"
snafu = "*"
