[package]
name = "cairo_impls"
version = "0.1.0"
edition = "2021"
publish = false

[dependencies]
anyhow = "1"
diffy = "0.4"
ignore = "0.4"
thiserror = "2"
