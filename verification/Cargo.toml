[package]
name = "get_torrent"
version = "0.1.0"
edition = "2021"
publish = false

[dependencies]
sha1 = "*"
lava_torrent = "*"
crossbeam-channel = "*"
parking_lot = "*"
rand = "*"
urlencoding = "*"
bendy = "*"
thiserror = "*"
data-encoding = "*"
reqwest = { version = "*", default-features = false, features = ["blocking"] }
