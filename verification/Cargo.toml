[package]
name = "icpuno_backend"
version = "0.1.0"
edition = "2021"
publish = false

[dependencies]
md5 = "=0.7.0"
candid = "=0.10.39"
ic-cdk = "=0.13.6"
serde = { version = "=1.0.229", features = ["derive"] }
