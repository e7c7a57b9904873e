[package]
name = "mailcore"
version = "0.1.0"
edition = "2021"
publish = false

[dependencies]
tera = { version = "*", default-features = false }
chrono = { version = "*", default-features = false, features = ["clock"] }
lettre = { version = "*", default-features = false, features = ["smtp-transport", "builder", "rustls-tls"] }
minreq = { version = "*", features = ["https"] }
