[package]
name = "zfs_autosnap"
version = "0.1.0"
edition = "2021"
publish = false

[dependencies]
byte-unit = "4"
chrono = "0.4"
subprocess = "0.2"
