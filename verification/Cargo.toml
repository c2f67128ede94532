[package]
name = "md_test_cases"
version = "0.1.0"
edition = "2021"
publish = false

[dependencies]
markdown = "1"

[dev-dependencies]
toml = "0.8"
