[package]
name = "nexum_apdu"
version = "0.1.0"
edition = "2021"
publish = false

[dependencies]
des = "0.8"
cbc = "0.1"
cbc-mac = "0.1"
cipher = "0.4"
block-padding = "0.3"
iso7816-tlv = "0.4"
rand = "0.9"
hex = "0.4"
zip = { version = "2", default-features = false, features = ["deflate"] }
clap = { version = "4", features = ["derive"] }
