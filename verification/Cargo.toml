[package]
name = "globe_tess"
version = "0.1.0"
edition = "2021"
publish = false

[dependencies]
geo = "*"
geo-types = "*"
geojson = "*"
mvt-reader = "*"
cgmath = "*"
tokio = { version = "*", default-features = false, features = ["rt", "sync", "macros"] }
reqwest = { version = "*", default-features = false }
