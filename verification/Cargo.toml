[package]
name = "physicslang"
version = "0.1.0"
edition = "2021"
publish = false

[dependencies]
nalgebra = "0.33"
serde_json = "1"
ureq = { version = "2", default-features = false, features = ["json"] }
