[package]
name = "sqlite_xl"
version = "0.1.0"
edition = "2021"
publish = false

[dependencies]
calamine = "=0.23.1"
sqlite-loadable = "=0.0.5"
thiserror = "=1.0.69"
