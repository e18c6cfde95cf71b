[package]
name = "calc"
version = "0.1.0"
edition = "2021"
publish = false

[dependencies]
rustc_apfloat = "*"
libm = "*"
bytemuck = "*"
clap = { version = "*", features = ["derive"] }
rustyline = "*"
