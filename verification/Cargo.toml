[package]
name = "pencil_api"
version = "0.1.0"
edition = "2021"
publish = false

[dependencies]
rand = "0.8"
uuid = { version = "*", features = ["v4"] }
yit_id_generator = "*"
pw_hash = "*"
