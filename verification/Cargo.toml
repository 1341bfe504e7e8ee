[package]
name = "twitch_bindgen"
version = "0.1.0"
edition = "2021"
publish = false

[dependencies]
anyhow = "1"
heck = "0.5"
openapiv3 = "2"
serde_json = "1"
ureq = "2"
