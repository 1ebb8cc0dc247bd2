[package]
name = "mdot"
version = "0.1.0"
edition = "2021"
publish = false

[dependencies]
colored = "*"
dirs = "*"
fern = "*"
log = "0.4"
mlua = { version = "*", features = ["lua54", "vendored"] }
