[package]
name = "sitemirror"
version = "0.1.0"
edition = "2021"
publish = false

[dependencies]
htmlescape = "*"
log = "*"
log4rs = "*"
percent-encoding = "*"
reqwest = { version = "*", default-features = false, features = ["blocking"] }
rocket = "*"
toml = "*"
tree_magic = "*"
url = "*"
