[package]
name = "arch-package-list-fetcher"
version = "0.1.0"
edition = "2021"
publish = false

[dependencies]
colored = "2"
http_req = "*"
regex = "1"
rss = { version = "2", default-features = false }
thiserror = "1"
toml = "0.5"
xdg = "2"
