[package]
name = "geodatafusion"
version = "0.1.0"
edition = "2021"
publish = false

[dependencies]
arrow-schema = "=59.3.1"
datafusion = { version = "=55.2.0", default-features = false }
geo = "=0.33.1"
wkt = "=0.14.0"
