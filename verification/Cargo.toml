[package]
name = "portfolio"
version = "0.1.0"
edition = "2021"
publish = false

[dependencies]
chrono = "0.4"
rust_decimal = "1"
rust_decimal_macros = "1"
