[package]
name = "lpm_core"
version = "0.1.0"
edition = "2021"
publish = false

[dependencies]
min-sqlite3-sys = "*"
