[package]
name = "pidl"
version = "0.1.0"
edition = "2021"
publish = false

[dependencies]
kdl = "*"
miette = "*"
thiserror = "*"
postcard-schema = "*"
