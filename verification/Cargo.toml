[package]
name = "crate_patcher"
version = "0.1.0"
edition = "2021"
publish = false

[dependencies]
diffy = "0.4"
file-lock = "2"
flate2 = "1"
glob = "0.3"
reqwest = { version = "0.12", default-features = false, features = ["blocking", "rustls-tls"] }
syn = { version = "2", features = ["full"] }
tar = "0.4"
toml_edit = "0.22"
