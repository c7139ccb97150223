[package]
name = "chess"
version = "0.1.0"
edition = "2021"
publish = false

[dependencies]
regex = "1"
structopt = "0.3"
termion = "*"
thread_local = "1"
thiserror = "1"
