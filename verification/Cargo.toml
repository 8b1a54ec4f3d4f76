[package]
name = "matey"
version = "0.1.0"
edition = "2021"
publish = false

[dependencies]
sha2 = "*"
material-colors = { version = "*", features = ["image"] }
log = "*"
simple_logger = "*"
