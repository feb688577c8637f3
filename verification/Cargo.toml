[package]
name = "gooseberry_tm"
version = "0.1.0"
edition = "2021"
publish = false

[dependencies]
anyhow = "1"
chrono = { version = "0.4", default-features = false, features = ["std", "clock"] }
crossterm = "0.25"
glob = "0.3"
lazy_static = "1"
path_abs = "0.5"
syntect = { version = "5", default-features = false, features = ["default-fancy"] }
thiserror = "1"
tui = "0.19"
unicode-width = "0.1"
