[package]
name = "asyncapi_gen"
version = "0.1.0"
edition = "2021"
publish = false

[dependencies]
clap = { version = "*", features = ["derive"] }
serde = { version = "*", features = ["derive"] }
serde_json = "*"
serde_yaml = "*"
gtmpl = "*"
gtmpl_value = "*"
walkdir = "*"
jsonschema = { version = "*", default-features = false }
