[package]
name = "s3_transfer"
version = "0.1.0"
edition = "2021"
publish = false

[dependencies]
zip = { version = "2", default-features = false, features = ["deflate"] }
serde_json = "1"
urlencoding = "2"
reqwest = { version = "0.11", default-features = false, features = ["multipart", "stream"] }
futures-util = "0.3"
directories = "5"
log = "0.4"
