[package]
name = "neosh"
version = "0.1.0"
edition = "2021"
publish = false

[dependencies]
bstr = "1"
crossterm = "*"
dirs = "*"
miette = { version = "*", features = ["fancy"] }
mlua = { version = "*", features = ["lua54", "vendored"] }
tracing = "0.1"
tracing-appender = "0.2"
tracing-subscriber = { version = "0.3", features = ["env-filter"] }
whoami = "1"
