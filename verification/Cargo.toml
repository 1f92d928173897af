[package]
name = "classfile"
version = "0.1.0"
edition = "2021"
publish = false

[dependencies]
java_string = "*"
bitflags = "2"
thiserror = "2"
strum = { version = "*", features = ["derive"] }
derive_more = { version = "2", features = ["full"] }
