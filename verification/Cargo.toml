[package]
name = "grrs"
version = "0.1.0"
edition = "2021"
publish = false

[dependencies]
anyhow = "1"
structopt = "0.3"
clap-verbosity-flag = "0.3"
