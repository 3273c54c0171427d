[package]
name = "books_daemon"
version = "0.1.0"
edition = "2021"
publish = false

[dependencies]
anyhow = "*"
config = "*"
daemonize = "*"
dirs = "*"
notify = "4"
