[package]
name = "enum_dispatch_pest_parser"
version = "0.1.0"
edition = "2021"
publish = false

[dependencies]
pest_generator = "2"
proc-macro2 = "1"
quote = "1"
regex = "1"
syn = { version = "2", features = ["full"] }
