[package]
name = "romident"
version = "0.1.0"
edition = "2021"
publish = false

[dependencies]
md5 = "*"
rust-fuzzy-search = "*"
zip = { version = "*", default-features = false, features = ["deflate"] }
reqwest = { version = "0.12", default-features = false, features = ["blocking", "rustls-tls"] }
serde = { version = "1", features = ["derive"] }
serde_json = "1"
toml = "*"
tabled = "*"
walkdir = "2"
