[package]
name = "kay_codegen"
version = "0.1.0"
edition = "2021"
publish = false

[dependencies]
syn = { version = "0.15", features = ["full", "extra-traits"] }
indexmap = "1"
unindent = "0.1"
glob = "0.3"
