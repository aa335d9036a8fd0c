[package]
name = "lexopt_schema"
version = "0.1.0"
edition = "2021"
publish = false

[dependencies]
lexopt = "0.3"
kproc-parser = ">=0.0.1-beta.1"
