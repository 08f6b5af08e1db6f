[package]
name = "dargo"
version = "0.1.0"
edition = "2021"
publish = false

[dependencies]
anyhow = "1"
cargo = "0.55"
cargo-platform = "0.1"
colored = "2"
flexi_logger = "0.18"
log = "0.4"
semver = "1"
structopt = "0.3"
tabwriter = "1"
toml_edit = "0.2"
