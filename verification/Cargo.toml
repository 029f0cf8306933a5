[package]
name = "rgis"
version = "0.1.0"
edition = "2021"
publish = false

[dependencies]
earcutr = "*"
env_logger = "*"
geo = "*"
geojson = "*"
instant = "*"
log = "*"
serde_json = "1"
