[package]
name = "bookstore"
version = "0.1.0"
edition = "2021"
publish = false

[dependencies]
regex = "1"
sublime_fuzzy = "0.7"
serde = { version = "1", features = ["derive"] }
toml = "0.5"
dirs = "3"
glob = "0.3"
unicase = "2"
