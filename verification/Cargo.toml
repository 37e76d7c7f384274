[package]
name = "oasgen"
version = "0.1.0"
edition = "2021"
publish = false

[dependencies]
indexmap = "=2.14.2"
openapiv3-extended = "=6.0.1"
serde_json = "=1.0.154"
serde_yaml = "=0.9.34"
actix-web = { version = "=4.18.1", default-features = false }
futures = "=0.3.34"
axum = "*"
