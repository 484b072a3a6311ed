[package]
name = "kira_r2kad"
version = "0.1.0"
edition = "2021"
publish = false

[dependencies]
rand = "0.9"
