[package]
name = "kemenn"
version = "0.1.0"
edition = "2021"
publish = false

[dependencies]
anyhow = "1"
dirs = "*"
handlebars = "*"
regex = "1"
structopt = "0.3"
