[package]
name = "fidget_shell"
version = "0.1.0"
edition = "2021"
publish = false

[dependencies]
nalgebra = "*"
thiserror = "*"
zerocopy = { version = "*", features = ["derive"] }
