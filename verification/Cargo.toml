[package]
name = "spf_validator"
version = "0.1.0"
edition = "2021"
publish = false

[dependencies]
cidr = "*"
regex = "*"
tokio = { version = "*", features = ["macros", "rt-multi-thread"] }
trust-dns-resolver = "*"
