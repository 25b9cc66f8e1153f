[package]
name = "zipstream"
version = "0.1.0"
edition = "2021"
publish = false

[dependencies]
bzip2 = "=0.6.1"
crc32fast = "=1.5.3"
flate2 = "=1.1.10"
liblzma = "=0.4.9"
tokio = { version = "=1.54.1", features = ["rt", "io-util", "fs", "macros"] }
zstd = { version = "=0.14.3", default-features = false }

[dev-dependencies]
zip = { version = "=9.1.0", default-features = false, features = ["deflate-flate2", "bzip2", "zstd"] }
