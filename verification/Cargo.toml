[package]
name = "component_scan"
version = "0.1.0"
edition = "2021"
publish = false

[dependencies]
serde_yaml = "=0.9.34+deprecated"
walkdir = "=2.5.0"

[dev-dependencies]
fs-err = "*"
