[package]
name = "kumojs"
version = "0.1.0"
edition = "2021"
publish = false

[dependencies]
serde_json = "1"
swc_common = { version = "*", features = ["tty-emitter"] }
swc_ecma_ast = "*"
swc_ecma_parser = "*"
thiserror = "1"
