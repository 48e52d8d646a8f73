[package]
name = "media_download"
version = "0.1.0"
edition = "2021"
publish = false

[dependencies]
regex = "1"
sanitize-filename = "*"
async-process = "*"
futures-lite = "*"
parking_lot = "*"
remove_dir_all = "*"
serde = { version = "1", features = ["derive"] }
