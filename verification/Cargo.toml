[package]
name = "typedruby"
version = "0.1.0"
edition = "2021"
publish = false

[dependencies]
clap = "2"
glob = "0.3"
itertools = "0.10"
ref_slice = "1"
regex = "1"
serde = { version = "1", features = ["derive"] }
serde_json = "1"
termcolor = "1"
toml = "0.5"
