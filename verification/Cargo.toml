[package]
name = "cleanse"
version = "0.1.0"
edition = "2021"
publish = false

[dependencies]
bstr = "*"
csv = "*"
color-eyre = "*"
structopt = "*"
tracing = "*"
tracing-subscriber = { version = "*", features = ["env-filter"] }
