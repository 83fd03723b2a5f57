[package]
name = "python_terms"
version = "0.1.0"
edition = "2021"
publish = false

[dependencies]
gmp-mpfr-sys = { version = "~1.5", default-features = false, features = ["use-system-libs"] }
rug = { version = "=1.19.2", default-features = false, features = ["integer"] }
