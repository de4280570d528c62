[package]
name = "type_migration"
version = "0.1.0"
edition = "2021"
publish = false

[dependencies]
im-rc = "=15.1.0"
pretty = "*"
z3 = "=0.10.0"
