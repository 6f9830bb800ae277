[package]
name = "kubesess"
version = "0.1.0"
edition = "2021"
publish = false

[dependencies]
regex = "1"
serde = { version = "1", features = ["derive"] }
toml = "*"
dirs = "*"
kube = { version = "*", default-features = false, features = ["config"] }
k8s-openapi = { version = "*", default-features = false, features = ["latest"] }
skim = "0.10"
