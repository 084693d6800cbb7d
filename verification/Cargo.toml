[package]
name = "asgn"
version = "0.1.0"
edition = "2021"
publish = false

[dependencies]
chrono = "*"
toml = "*"
serde = "*"
serde_derive = "*"
structopt = "*"
colored = "*"
termion = "*"
users = "*"
walkdir = "*"
dirs = "*"
tempfile = "*"
itertools = "*"
