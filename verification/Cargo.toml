[package]
name = "rustical"
version = "0.1.0"
edition = "2021"
publish = false

[dependencies]
quick-xml = "=0.37.5"
roxmltree = "=0.20.0"
actix-web = { version = "=4.18.1", default-features = false }
actix-web-httpauth = "=0.8.3"
tokio = { version = "=1.54.1", features = ["sync"] }
