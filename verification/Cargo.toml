[package]
name = "bilibili_manga_downloader"
version = "0.1.0"
edition = "2021"
publish = false

[dependencies]
aes = "0.8"
anyhow = "1"
base64 = "0.22"
bytes = "1"
chrono = "0.4"
hex = "0.4"
image = "0.25"
md5 = "0.7"
parking_lot = "0.12"
path-slash = "0.2"
percent-encoding = "2"
qrcode = "0.14"
rand = "0.8"
reqwest = { version = "0.12", default-features = false, features = ["json"] }
reqwest-middleware = "0.4"
reqwest-retry = "0.7"
serde = { version = "1", features = ["derive"] }
serde_json = "1"
showfile = "0.1"
tokio = { version = "1", features = ["sync", "time", "rt-multi-thread", "macros"] }
zip = { version = "2", default-features = false, features = ["deflate"] }
