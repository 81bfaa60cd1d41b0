[package]
name = "magnetar"
version = "0.1.0"
edition = "2021"
publish = false

[dependencies]
chrono = "0.4"
clap = "2"
flexi_logger = "*"
indextree = "*"
log = "*"
rusqlite = "*"
sha1 = "0.6"
