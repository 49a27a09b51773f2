[package]
name = "russh_config"
version = "0.1.0"
edition = "2021"
publish = false

[dependencies]
globset = { version = "0.4", default-features = false }
home = "0.5"
thiserror = "1"
whoami = { version = "1", default-features = false }
