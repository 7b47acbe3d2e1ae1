[package]
name = "equilibrium_ffi"
version = "0.1.0"
edition = "2021"
publish = false

[dependencies]
which = "*"
serde = { version = "1", features = ["derive"] }
toml = "*"
clap = { version = "4", features = ["derive"] }
console = "*"
dialoguer = "*"
