[package]
name = "me1_save"
version = "0.1.0"
edition = "2021"
publish = false

[dependencies]
anyhow = "1"
async-trait = "0.1"
zip = { version = "0.5", default-features = false, features = ["deflate"] }
