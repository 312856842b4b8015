[package]
name = "zizmor"
version = "0.1.0"
edition = "2021"
publish = false

[dependencies]
yamlpath = "=0.34.0"
anyhow = "*"
serde = { version = "*", features = ["derive"] }
serde_json = "*"
serde_yaml = "*"
clap = { version = "*", features = ["derive"] }
camino = "*"
ignore = "*"
reqwest = { version = "*", default-features = false, features = ["blocking", "json", "rustls-tls"] }
