[package]
name = "mc_prod_test"
version = "0.1.0"
edition = "2021"
publish = false

[dependencies]
anyhow = "1"
clap = { version = "4", features = ["derive"] }
dialoguer = { version = "*", features = ["fuzzy-select"] }
either = "1"
futures = "0.3"
helixlauncher-core = "*"
indicatif = "0.17"
schemars = "0.8"
serde = { version = "1", features = ["derive"] }
serde_json = "1"
tokio = { version = "1", features = ["full"] }
