[package]
name = "rgis_layers"
version = "0.1.0"
edition = "2021"
publish = false

[dependencies]
geo = "*"
colorous = "*"
serde_json = "*"
proj = "*"
thiserror = "*"
