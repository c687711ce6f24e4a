[package]
name = "qlang"
version = "0.1.0"
edition = "2021"
publish = false

[dependencies]
ansi_term = "=0.12.1"
inkwell = { version = "=0.11.0", features = ["llvm14-0-force-dynamic"] }
