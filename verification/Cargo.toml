[package]
name = "package_registry"
version = "0.1.0"
edition = "2021"
publish = false

[dependencies]
rustc-serialize = "0.3"
semver = "1"
sha2 = "0.10"
time = "0.1"
conduit = "*"
conduit-router = "*"
curl = "*"
postgres = "*"
