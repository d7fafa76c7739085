[package]
name = "whiteboard_browser"
version = "0.1.0"
edition = "2021"
publish = false

[dependencies]
futures = "0.3"
http = "1"
reqwest = { version = "0.12", default-features = false, features = ["blocking", "rustls-tls"] }
