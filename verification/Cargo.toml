[package]
name = "trashcan"
version = "0.1.0"
edition = "2021"
publish = false

[dependencies]
chrono = { version = "0.4", default-features = false, features = ["clock", "std"] }
fs_extra = "1"
percent-encoding = "1.0.1"
rust-ini = "*"
xdg = "2"
