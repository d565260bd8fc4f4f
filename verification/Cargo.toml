[package]
name = "latticefold"
version = "0.1.0"
edition = "2021"
publish = false

[dependencies]
ark-serialize = "=0.6.0"
rand = "=0.8.8"
thiserror = "=2.0.21"
