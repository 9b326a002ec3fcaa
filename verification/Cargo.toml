[package]
name = "dadada"
version = "0.9.5"
edition = "2021"
publish = false

[dependencies]
pulldown-cmark = { version = "0.7", default-features = false }
clap = "2"
cargo_metadata = "0.9"
log = "0.4"
pretty_env_logger = "0.4"
