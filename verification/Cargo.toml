[package]
name = "safari"
version = "2.3.7"
edition = "2021"
publish = false

[dependencies]
dirs = "*"
docopt = "*"
plist = "*"
reqwest = { version = "*", features = ["blocking"] }
serde = { version = "1", features = ["derive"] }
serde_derive = "1"
tera = { version = "*", default-features = false }
urlencoding = "*"
urlparse = "0.7"
