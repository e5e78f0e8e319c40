[package]
name = "vouch_py_lib"
version = "0.1.0"
edition = "2021"
publish = false

[dependencies]
handlebars = "*"
serde_json = "*"
url = "*"
reqwest = { version = "*", default-features = false, features = ["blocking"] }
