[package]
name = "mince"
version = "0.1.0"
edition = "2021"
publish = false

[dependencies]
regex = "1"
region = "3"
keystone = "*"
anyhow = "1"
thiserror = "1"
lazy_static = "1"
libc = "0.2"
nalgebra-glm = "*"
once_cell = "1"
