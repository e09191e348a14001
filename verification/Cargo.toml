[package]
name = "zdu_lib"
version = "0.1.0"
edition = "2021"
publish = false

[dependencies]
qbsdiff = "1"
bsdiff = "0.2"
tokio = { version = "1", features = ["net", "io-util", "sync", "rt-multi-thread", "macros"] }
rand = "0.9"
dirs = "6"
iced = { version = "0.14", default-features = false, features = ["tiny-skia", "tokio"] }
rfd = { version = "0.15", default-features = false, features = ["xdg-portal", "tokio"] }
