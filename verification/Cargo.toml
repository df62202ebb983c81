[package]
name = "smeagol"
version = "0.1.0"
edition = "2021"
publish = false

[dependencies]
git2 = { version = "*", default-features = false }
handlebars = "1"
log = "0.4"
serde = { version = "1", features = ["derive"] }
warp = { version = "0.1", default-features = false }

[dev-dependencies]
tempdir = "0.3"
