[package]
name = "lastfm-query"
version = "0.1.0"
edition = "2021"
publish = false

[dependencies]
rusqlite = "*"
clap = "2"
directories = "*"
indicatif = "*"
rpassword = "*"
reqwest = { version = "*", default-features = false, features = ["blocking", "json", "rustls-tls"] }
serde = { version = "1", features = ["derive"] }
serde_json = "1"
