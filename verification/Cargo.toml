[package]
name = "ledger_engine"
version = "0.1.0"
edition = "2021"
publish = false

[dependencies]
config = { version = "*", default-features = false, features = ["toml"] }
csv = "*"
lexical-core = "*"
primitive_fixed_point_decimal = "*"
serde = { version = "*", features = ["derive"] }
thiserror = "*"
