[package]
name = "payment"
version = "0.1.0"
edition = "2021"
publish = false

[dependencies]
ic-cdk = "*"
candid = "*"
serde = { version = "*", features = ["derive"] }
k256 = { version = "0.13", features = ["ecdsa"] }
